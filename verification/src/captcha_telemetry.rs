//! A local count of the challenge pages that were met, by host.
//!
//! Hosts are folded to lower case without a leading `www.`. Each has a row with a
//! count for every kind of challenge; the rows are kept in the order of the hosts.

use vstd::prelude::*;
use vstd::string::*;
use crate::clock;
use crate::resilience::ChallengeKind;
use crate::sorted_map::SortedMap;
use crate::sorted_map;
use crate::text;

verus! {

/// The version of the stored rows.
pub const SCHEMA_VERSION: u32 = 1;

/// One row.
#[derive(Debug, PartialEq, Eq)]
pub struct CaptchaTelemetryRecord {
    pub host: String,
    /// The counts by the name of the kind.
    pub counts: SortedMap<u32>,
    pub first_seen_unix_secs: u64,
    pub last_seen_unix_secs: u64,
    /// Whether the host was known to serve challenges.
    pub expected: bool,
}

/// The sum of a list of counts.
pub open spec fn sum(s: Seq<u32>) -> nat
    decreases s.len(),
{
    if s.len() == 0 {
        0
    } else {
        sum(s.drop_last()) + s.last() as nat
    }
}

proof fn lemma_sum_prefix(s: Seq<u32>, n: int)
    requires
        0 <= n <= s.len(),
    ensures
        sum(s.take(n)) <= sum(s),
    decreases s.len(),
{
    if n < s.len() {
        lemma_sum_prefix(s.drop_last(), n);
        assert(s.drop_last().take(n) == s.take(n));
    } else {
        assert(s.take(n) == s);
    }
}

/// The names of the four kinds are four different names.
pub proof fn lemma_kind_names(a: ChallengeKind, b: ChallengeKind)
    ensures
        a != b ==> a.spec_name() != b.spec_name(),
{
    reveal_strlit("cloudflare_turnstile");
    reveal_strlit("recaptcha_v2");
    reveal_strlit("recaptcha_v3");
    reveal_strlit("hcaptcha");
    assert("recaptcha_v2"@[11] == '2' && "recaptcha_v3"@[11] == '3');
    assert("cloudflare_turnstile"@.len() == 20 && "recaptcha_v2"@.len() == 12 && "hcaptcha"@.len()
        == 8);
}

/// Counts with every kind at zero.
pub open spec fn zero_counts(c: SortedMap<u32>) -> bool {
    &&& c.wf()
    &&& c.spec_keys().len() == 4
    &&& c.at("cloudflare_turnstile"@) == Some(0u32)
    &&& c.at("recaptcha_v2"@) == Some(0u32)
    &&& c.at("recaptcha_v3"@) == Some(0u32)
    &&& c.at("hcaptcha"@) == Some(0u32)
}

/// The count of a kind.
pub open spec fn count_of(c: SortedMap<u32>, kind: ChallengeKind) -> u32 {
    match c.at(kind.spec_name()) {
        Some(n) => n,
        None => 0,
    }
}

impl CaptchaTelemetryRecord {
    /// The same row, field by field.
    pub open spec fn same(self, other: CaptchaTelemetryRecord) -> bool {
        &&& self.host == other.host
        &&& self.counts.spec_keys() == other.counts.spec_keys()
        &&& self.counts.spec_values() == other.counts.spec_values()
        &&& self.first_seen_unix_secs == other.first_seen_unix_secs
        &&& self.last_seen_unix_secs == other.last_seen_unix_secs
        &&& self.expected == other.expected
    }

    /// All challenges of the host.
    pub open spec fn spec_total(self) -> nat {
        sum(self.counts.spec_values())
    }

    /// A row without challenges.
    pub fn new(host: String, now: u64, expected: bool) -> (r: Self)
        ensures
            r.host == host,
            zero_counts(r.counts),
            r.first_seen_unix_secs == now,
            r.last_seen_unix_secs == now,
            r.expected == expected,
    {
        proof {
            lemma_kind_names(ChallengeKind::CloudflareTurnstile, ChallengeKind::RecaptchaV2);
            lemma_kind_names(ChallengeKind::CloudflareTurnstile, ChallengeKind::RecaptchaV3);
            lemma_kind_names(ChallengeKind::CloudflareTurnstile, ChallengeKind::Hcaptcha);
            lemma_kind_names(ChallengeKind::RecaptchaV2, ChallengeKind::RecaptchaV3);
            lemma_kind_names(ChallengeKind::RecaptchaV2, ChallengeKind::Hcaptcha);
            lemma_kind_names(ChallengeKind::RecaptchaV3, ChallengeKind::Hcaptcha);
        }
        let mut counts: SortedMap<u32> = SortedMap::new();
        assert(counts.at("recaptcha_v2"@) is None);
        assert(counts.at("recaptcha_v3"@) is None);
        assert(counts.at("hcaptcha"@) is None);
        counts.set(text::owned("cloudflare_turnstile"), 0);
        counts.set(text::owned("recaptcha_v2"), 0);
        counts.set(text::owned("recaptcha_v3"), 0);
        counts.set(text::owned("hcaptcha"), 0);
        CaptchaTelemetryRecord {
            host,
            counts,
            first_seen_unix_secs: now,
            last_seen_unix_secs: now,
            expected,
        }
    }

    /// All challenges of the host.
    pub fn total(&self) -> (r: u32)
        requires
            self.counts.wf(),
            self.spec_total() <= u32::MAX,
        ensures
            r == self.spec_total(),
    {
        let ghost values = self.counts.spec_values();
        let mut n: u32 = 0;
        let mut i: usize = 0;
        let len: usize = self.counts.len();
        while i < len
            invariant
                values == self.counts.spec_values(),
                len == values.len(),
                i <= len,
                sum(values) <= u32::MAX,
                n == sum(values.take(i as int)),
            decreases len - i,
        {
            proof {
                assert(values.take(i + 1).drop_last() == values.take(i as int));
                lemma_sum_prefix(values, i + 1);
            }
            n = n + *self.counts.value(i);
            i += 1;
        }
        assert(values.take(len as int) == values);
        n
    }

    fn copy(&self) -> (r: Self)
        requires
            self.counts.wf(),
        ensures
            r.same(*self),
            r.counts.wf(),
    {
        CaptchaTelemetryRecord {
            host: self.host.clone(),
            counts: self.counts.copy(),
            first_seen_unix_secs: self.first_seen_unix_secs,
            last_seen_unix_secs: self.last_seen_unix_secs,
            expected: self.expected,
        }
    }
}

// ---------------------------------------------------------------------------
// Hosts
// ---------------------------------------------------------------------------

/// The host behind a domain name: in lower case, without a leading `www.`.
pub open spec fn host_of(name: Seq<char>) -> Seq<char> {
    let lower = text::ascii_lowercase(name);
    if "www."@.is_prefix_of(lower) {
        lower.subrange(4, lower.len() as int)
    } else {
        lower
    }
}

/// Folds a domain name to its host.
pub fn normalize_host(input: &str) -> (r: String)
    ensures
        r@ == host_of(input@),
{
    let lower = text::to_ascii_lowercase(input);
    if text::starts_with(lower.as_str(), "www.") {
        proof {
            reveal_strlit("www.");
        }
        let n: usize = lower.as_str().unicode_len();
        text::owned(lower.as_str().substring_char(4, n))
    } else {
        lower
    }
}

/// Whether `path` names the entry `name` of the directory `dir`: a separator stands
/// between them, put there where the directory does not end with one. Which one is
/// put, and whether a backslash or the colon of a drive at the end will do, depends
/// on the platform.
pub open spec fn right_below(dir: Seq<char>, name: Seq<char>, path: Seq<char>) -> bool {
    if dir.len() == 0 || dir.last() == '/' {
        path == dir + name
    } else {
        ||| path == dir + "/"@ + name
        ||| path == dir + "\\"@ + name
        ||| (dir.last() == '\\' || dir.last() == ':') && path == dir + name
    }
}

/// `Path::join` of a directory and the name of a file in it, as text: the
/// directory, a separator where one is missing, and the name. The separator is
/// that of the platform. A directory that begins with `\\?\` has its separators
/// rewritten where the platform knows that prefix; of it only the end is stated.
#[verifier::external_body]
fn join_path(dir: &str, name: &str) -> (r: String)
    requires
        name@ == "captcha_telemetry.json"@,
    ensures
        name@.is_suffix_of(r@),
        !"\\\\?\\"@.is_prefix_of(dir@) ==> right_below(dir@, name@, r@),
{
    std::path::Path::new(dir).join(name).to_string_lossy().into_owned()
}

/// Where the rows are stored by default: in the data directory.
pub fn default_persist_path(data_dir: &str) -> (r: String)
    ensures
        "captcha_telemetry.json"@.is_suffix_of(r@),
        !"\\\\?\\"@.is_prefix_of(data_dir@) ==> right_below(
            data_dir@,
            "captcha_telemetry.json"@,
            r@,
        ),
{
    join_path(data_dir, "captcha_telemetry.json")
}

// ---------------------------------------------------------------------------
// The telemetry
// ---------------------------------------------------------------------------

/// The rows of all hosts.
#[derive(Debug)]
pub struct CaptchaTelemetry {
    pub rows: SortedMap<CaptchaTelemetryRecord>,
    /// Where the rows are stored, or nowhere.
    pub persist_path: Option<String>,
}

/// The rows as they are stored.
#[derive(Debug)]
pub struct StoredTelemetry {
    pub schema_version: u32,
    pub records: Vec<CaptchaTelemetryRecord>,
}

impl StoredTelemetry {
    /// The counts of every row are in order.
    pub open spec fn wf(self) -> bool {
        forall|i: int| 0 <= i < self.records@.len() ==> (#[trigger] self.records@[i]).counts.wf()
    }
}

/// Whether `row` is what the row `before` of a host becomes when a challenge is
/// met.
pub open spec fn met(
    before: Option<CaptchaTelemetryRecord>,
    row: CaptchaTelemetryRecord,
    host: Seq<char>,
    kind: ChallengeKind,
    now: u64,
) -> bool {
    &&& row.host@ == host
    &&& row.counts.wf()
    &&& row.last_seen_unix_secs == now
    &&& match before {
        Some(b) => {
            &&& row.expected == b.expected
            &&& row.first_seen_unix_secs == if b.first_seen_unix_secs == 0 {
                now
            } else {
                b.first_seen_unix_secs
            }
            &&& row.counts.at(kind.spec_name()) == Some((count_of(b.counts, kind) + 1) as u32)
            &&& forall|k: Seq<char>|
                k != kind.spec_name() ==> #[trigger] row.counts.at(k) == b.counts.at(k)
        },
        None => {
            &&& !row.expected
            &&& row.first_seen_unix_secs == now
            &&& row.counts.spec_keys().len() == 4
            &&& forall|k: ChallengeKind|
                #[trigger] row.counts.at(k.spec_name()) == Some(
                    if k == kind {
                        1u32
                    } else {
                        0u32
                    },
                )
        },
    }
}

/// Whether `row` is what the row `before` of a host becomes when the host is
/// marked as expected.
pub open spec fn marked(
    before: Option<CaptchaTelemetryRecord>,
    row: CaptchaTelemetryRecord,
    host: Seq<char>,
    now: u64,
) -> bool {
    &&& row.host@ == host
    &&& row.expected
    &&& row.counts.wf()
    &&& match before {
        Some(b) => {
            &&& row.host == b.host
            &&& row.counts.spec_keys() == b.counts.spec_keys()
            &&& row.counts.spec_values() == b.counts.spec_values()
            &&& row.first_seen_unix_secs == b.first_seen_unix_secs
            &&& row.last_seen_unix_secs == b.last_seen_unix_secs
        },
        None => {
            &&& zero_counts(row.counts)
            &&& row.first_seen_unix_secs == now
            &&& row.last_seen_unix_secs == now
        },
    }
}

/// A call that may change the rows.
pub ghost enum TelemetryCall {
    /// A challenge was met at a domain.
    Met { domain: Seq<char>, kind: ChallengeKind, now: u64 },
    /// A domain was marked as expected.
    Marked { domain: Seq<char>, now: u64 },
}

impl TelemetryCall {
    pub open spec fn domain(self) -> Seq<char> {
        match self {
            TelemetryCall::Met { domain, .. } => domain,
            TelemetryCall::Marked { domain, .. } => domain,
        }
    }

    /// Whether the call is about a host. A domain without a name is about none.
    pub open spec fn about(self, host: Seq<char>) -> bool {
        self.domain().len() > 0 && host_of(self.domain()) == host
    }
}

impl CaptchaTelemetry {
    /// Whether one more challenge of a kind can be counted at a domain.
    pub open spec fn can_count(self, domain: Seq<char>, kind: ChallengeKind) -> bool {
        domain.len() > 0 && self.row(host_of(domain)) is Some ==> count_of(
            self.row(host_of(domain))->0.counts,
            kind,
        ) < u32::MAX
    }

    /// Whether the telemetry takes a call.
    pub open spec fn takes(self, call: TelemetryCall) -> bool {
        match call {
            TelemetryCall::Met { domain, kind, .. } => self.can_count(domain, kind),
            TelemetryCall::Marked { .. } => true,
        }
    }

    /// Whether the telemetry becomes `after` by a call: only the row of the host
    /// that the call is about changes.
    pub open spec fn took(self, call: TelemetryCall, after: CaptchaTelemetry) -> bool {
        let host = host_of(call.domain());
        &&& after.wf()
        &&& after.persist_path == self.persist_path
        &&& call.domain().len() == 0 ==> after == self
        &&& call.domain().len() > 0 ==> {
            &&& after.row(host) is Some
            &&& match call {
                TelemetryCall::Met { kind, now, .. } => met(
                    self.row(host),
                    after.row(host)->0,
                    host,
                    kind,
                    now,
                ),
                TelemetryCall::Marked { now, .. } => marked(
                    self.row(host),
                    after.row(host)->0,
                    host,
                    now,
                ),
            }
            &&& forall|h: Seq<char>| h != host ==> #[trigger] after.row(h) == self.row(h)
        }
    }

    /// The rows are in order, each under its own host, with its counts in order.
    pub open spec fn wf(self) -> bool {
        &&& self.rows.wf()
        &&& forall|i: int|
            0 <= i < self.rows.spec_values().len() ==> {
                &&& (#[trigger] self.rows.spec_values()[i]).counts.wf()
                &&& self.rows.spec_values()[i].host@ == self.rows.spec_keys()[i]
            }
    }

    /// The row of a host.
    pub open spec fn row(self, host: Seq<char>) -> Option<CaptchaTelemetryRecord> {
        self.rows.at(host)
    }

    /// Whether a list holds the rows, in the order of the hosts.
    pub open spec fn listed_in(self, rows: Seq<CaptchaTelemetryRecord>) -> bool {
        &&& rows.len() == self.rows.spec_values().len()
        &&& forall|i: int|
            0 <= i < rows.len() ==> (#[trigger] rows[i]).same(self.rows.spec_values()[i])
    }

    /// Whether the rows are the last ones of their hosts in a list.
    pub open spec fn holds_last(self, rows: Seq<CaptchaTelemetryRecord>) -> bool {
        forall|h: Seq<char>|
            match last_row(rows, h) {
                Some(row) => #[trigger] self.row(h) is Some && self.row(h)->0.same(row),
                None => self.row(h) is None,
            }
    }

    pub fn new(persist_path: Option<String>) -> (r: Self)
        ensures
            r.wf(),
            r.rows.spec_keys().len() == 0,
            r.persist_path == persist_path,
    {
        CaptchaTelemetry { rows: SortedMap::new(), persist_path }
    }

    proof fn lemma_row_ok(self, host: Seq<char>)
        requires
            self.wf(),
        ensures
            self.row(host) is Some ==> self.row(host)->0.counts.wf() && self.row(host)->0.host@
                == host,
    {
        let keys = self.rows.spec_keys();
        if keys.contains(host) {
            let i = keys.index_of(host);
            assert(keys[i] == host);
            assert(self.rows.spec_values()[i].counts.wf());
        }
    }

    /// Puts a row under its own host.
    fn put(&mut self, row: CaptchaTelemetryRecord)
        requires
            old(self).wf(),
            row.counts.wf(),
        ensures
            final(self).wf(),
            final(self).persist_path == old(self).persist_path,
            final(self).row(row.host@) == Some(row),
            forall|h: Seq<char>| h != row.host@ ==> #[trigger] final(self).row(h) == old(self).row(h),
    {
        let ghost before = *self;
        let ghost placed = row;
        self.rows.set(row.host.clone(), row);
        proof {
            let keys = self.rows.spec_keys();
            let values = self.rows.spec_values();
            assert forall|i: int| 0 <= i < values.len() implies {
                &&& (#[trigger] values[i]).counts.wf()
                &&& values[i].host@ == keys[i]
            } by {
                assert(keys.contains(keys[i]));
                sorted_map::lemma_irreflexive(keys[i]);
                assert(keys.index_of(keys[i]) == i) by {
                    let j = keys.index_of(keys[i]);
                    assert(keys[j] == keys[i]);
                }
                assert(self.rows.at(keys[i]) == Some(values[i]));
                if keys[i] != placed.host@ {
                    assert(self.rows.at(keys[i]) == before.rows.at(keys[i]));
                    before.lemma_row_ok(keys[i]);
                }
            }
        }
    }

    /// The stored rows, where they are of the present version; none otherwise. A
    /// later row of a host replaces an earlier one.
    pub fn restore(
        schema_version: u32,
        records: Vec<CaptchaTelemetryRecord>,
        persist_path: Option<String>,
    ) -> (r: Self)
        requires
            forall|i: int| 0 <= i < records@.len() ==> (#[trigger] records@[i]).counts.wf(),
        ensures
            r.wf(),
            r.persist_path == persist_path,
            schema_version != SCHEMA_VERSION ==> r.rows.spec_keys().len() == 0,
            schema_version == SCHEMA_VERSION ==> r.holds_last(records@),
    {
        let mut t = CaptchaTelemetry::new(persist_path);
        if schema_version != SCHEMA_VERSION {
            return t;
        }
        let mut i: usize = 0;
        assert(t.holds_last(records@.take(0)));
        while i < records.len()
            invariant
                forall|j: int| 0 <= j < records@.len() ==> (#[trigger] records@[j]).counts.wf(),
                i <= records@.len(),
                t.wf(),
                t.persist_path == persist_path,
                t.holds_last(records@.take(i as int)),
            decreases records@.len() - i,
        {
            let row = records[i].copy();
            let ghost before = t;
            let ghost placed = row;
            t.put(row);
            proof {
                let next = records@.take(i + 1);
                assert(next.drop_last() == records@.take(i as int));
                assert(next.last() == records@[i as int]);
                assert forall|h: Seq<char>|
                    match last_row(next, h) {
                        Some(row) => #[trigger] t.row(h) is Some && t.row(h)->0.same(row),
                        None => t.row(h) is None,
                    } by {
                    if h != placed.host@ {
                        assert(t.row(h) == before.row(h));
                    }
                }
            }
            i += 1;
        }
        assert(records@.take(records@.len() as int) == records@);
        t
    }

    /// The telemetry that what was read gives: the stored rows where they are of the
    /// present version, and no rows where they are not or where nothing could be
    /// read.
    pub fn load_or_default(stored: Option<StoredTelemetry>, persist_path: Option<String>) -> (r:
        Self)
        requires
            stored is Some ==> stored->0.wf(),
        ensures
            r.wf(),
            r.persist_path == persist_path,
            match stored {
                Some(s) => if s.schema_version == SCHEMA_VERSION {
                    r.holds_last(s.records@)
                } else {
                    r.rows.spec_keys().len() == 0
                },
                None => r.rows.spec_keys().len() == 0,
            },
    {
        match stored {
            Some(s) => CaptchaTelemetry::restore(s.schema_version, s.records, persist_path),
            None => CaptchaTelemetry::new(persist_path),
        }
    }

    /// The rows to be stored.
    pub fn to_store(&self) -> (r: StoredTelemetry)
        requires
            self.wf(),
        ensures
            r.wf(),
            r.schema_version == SCHEMA_VERSION,
            self.listed_in(r.records@),
    {
        let records = self.snapshot();
        proof {
            assert forall|i: int| 0 <= i < records@.len() implies (
            #[trigger] records@[i]).counts.wf() by {
                assert(records@[i].same(self.rows.spec_values()[i]));
                assert(self.rows.spec_values()[i].counts.wf());
            }
        }
        StoredTelemetry { schema_version: SCHEMA_VERSION, records }
    }

    /// Counts a challenge at the given time. A domain without a name is ignored.
    pub fn record_at(&mut self, domain: &str, kind: ChallengeKind, now: u64)
        requires
            old(self).wf(),
            old(self).can_count(domain@, kind),
        ensures
            old(self).took(TelemetryCall::Met { domain: domain@, kind, now }, *final(self)),
    {
        if domain.is_empty() {
            return;
        }
        let host = normalize_host(domain);
        proof {
            self.lemma_row_ok(host@);
        }
        let mut row = match self.rows.get(host.as_str()) {
            Some(r) => r.copy(),
            None => CaptchaTelemetryRecord::new(host.clone(), now, false),
        };
        if row.first_seen_unix_secs == 0 {
            row.first_seen_unix_secs = now;
        }
        row.last_seen_unix_secs = now;
        let ghost counts = row.counts;
        let name = kind.as_str();
        let n: u32 = match row.counts.get(name) {
            Some(n) => *n,
            None => 0,
        };
        row.counts.set(text::owned(name), n + 1);
        proof {
            if old(self).row(host@) is None {
                assert forall|k: ChallengeKind|
                    #[trigger] row.counts.at(k.spec_name()) == Some(
                        if k == kind {
                            1u32
                        } else {
                            0u32
                        },
                    ) by {
                    lemma_kind_names(k, kind);
                    assert(count_of(counts, k) == 0);
                    if k != kind {
                        assert(row.counts.at(k.spec_name()) == counts.at(k.spec_name()));
                    }
                }
            } else {
                let b = old(self).row(host@)->0;
                assert forall|k: Seq<char>| k != kind.spec_name() implies #[trigger] row.counts.at(
                    k,
                ) == b.counts.at(k) by {
                    assert(row.counts.at(k) == counts.at(k));
                }
            }
        }
        self.put(row);
    }

    /// Counts a challenge at the present second.
    pub fn record(&mut self, domain: &str, kind: ChallengeKind)
        requires
            old(self).wf(),
            old(self).can_count(domain@, kind),
        ensures
            exists|now: u64|
                #[trigger] old(self).took(
                    TelemetryCall::Met { domain: domain@, kind, now },
                    *final(self),
                ),
    {
        let now: u64 = clock::now_secs();
        self.record_at(domain, kind, now);
    }

    /// Marks a host as known to serve challenges, at the given time.
    pub fn mark_expected_at(&mut self, domain: &str, now: u64)
        requires
            old(self).wf(),
        ensures
            old(self).took(TelemetryCall::Marked { domain: domain@, now }, *final(self)),
    {
        if domain.is_empty() {
            return;
        }
        let host = normalize_host(domain);
        proof {
            self.lemma_row_ok(host@);
        }
        let row = match self.rows.get(host.as_str()) {
            Some(r) => {
                let mut row = r.copy();
                row.expected = true;
                row
            },
            None => CaptchaTelemetryRecord::new(host.clone(), now, true),
        };
        self.put(row);
    }

    /// Marks a host as known to serve challenges.
    pub fn mark_expected(&mut self, domain: &str)
        requires
            old(self).wf(),
        ensures
            exists|now: u64|
                #[trigger] old(self).took(
                    TelemetryCall::Marked { domain: domain@, now },
                    *final(self),
                ),
    {
        let now: u64 = clock::now_secs();
        self.mark_expected_at(domain, now);
    }

    /// How often challenges of a kind were met at a host, where it has a row.
    pub fn count(&self, host: &str, kind: ChallengeKind) -> (r: Option<u32>)
        requires
            self.wf(),
        ensures
            r == match self.row(host@) {
                Some(row) => Some(count_of(row.counts, kind)),
                None => None,
            },
    {
        match self.rows.get(host) {
            Some(row) => {
                proof {
                    self.lemma_row_ok(host@);
                }
                match row.counts.get(kind.as_str()) {
                    Some(n) => Some(*n),
                    None => Some(0),
                }
            },
            None => None,
        }
    }

    /// The rows in the order of the hosts.
    pub fn snapshot(&self) -> (r: Vec<CaptchaTelemetryRecord>)
        requires
            self.wf(),
        ensures
            self.listed_in(r@),
    {
        let mut out: Vec<CaptchaTelemetryRecord> = Vec::new();
        let n: usize = self.rows.len();
        let mut i: usize = 0;
        while i < n
            invariant
                self.wf(),
                n == self.rows.spec_values().len(),
                i <= n,
                out@.len() == i,
                forall|j: int|
                    0 <= j < i ==> (#[trigger] out@[j]).same(self.rows.spec_values()[j]),
            decreases n - i,
        {
            out.push(self.rows.value(i).copy());
            i += 1;
        }
        out
    }
}

/// The last row of a host in a list.
pub open spec fn last_row(s: Seq<CaptchaTelemetryRecord>, host: Seq<char>) -> Option<
    CaptchaTelemetryRecord,
>
    decreases s.len(),
{
    if s.len() == 0 {
        None
    } else if s.last().host@ == host {
        Some(s.last())
    } else {
        last_row(s.drop_last(), host)
    }
}

// ---------------------------------------------------------------------------
// The summary
// ---------------------------------------------------------------------------

/// `x` put into an ordered list behind everything that does not come after it.
pub open spec fn placed(s: Seq<Seq<char>>, x: Seq<char>) -> Seq<Seq<char>>
    decreases s.len(),
{
    if s.len() > 0 && sorted_map::text_less(x, s.last()) {
        placed(s.drop_last(), x).push(s.last())
    } else {
        s.push(x)
    }
}

/// A list in order.
pub open spec fn in_order(s: Seq<Seq<char>>) -> Seq<Seq<char>>
    decreases s.len(),
{
    if s.len() == 0 {
        s
    } else {
        placed(in_order(s.drop_last()), s.last())
    }
}

/// `kind: count` for each kind.
pub open spec fn kind_lines(c: SortedMap<u32>) -> Seq<Seq<char>> {
    Seq::new(
        c.spec_keys().len(),
        |i: int| c.spec_keys()[i] + ": "@ + text::decimal(c.spec_values()[i] as nat),
    )
}

/// The row of one host.
pub open spec fn row_text(r: CaptchaTelemetryRecord) -> Seq<char> {
    "  "@ + text::padded_right(r.host@, 20) + " — "@ + text::padded_left(
        text::decimal(r.spec_total()),
        3,
        ' ',
    ) + " total ["@ + (if r.expected {
        "expected"@
    } else {
        "new     "@
    }) + "] — "@ + text::joined(in_order(kind_lines(r.counts)), ", "@) + "\n"@
}

/// The rows of the first `n` hosts.
pub open spec fn rows_text(rows: Seq<CaptchaTelemetryRecord>, n: nat) -> Seq<char>
    decreases n,
{
    if n == 0 {
        "Captcha telemetry (local-only):\n"@
    } else {
        rows_text(rows, (n - 1) as nat) + row_text(rows[n - 1])
    }
}

/// The summary for the user.
pub open spec fn summary_text(t: CaptchaTelemetry) -> Seq<char> {
    let rows = t.rows.spec_values();
    if rows.len() == 0 {
        "Captcha telemetry (local-only): no challenges recorded yet."@
    } else {
        rows_text(rows, rows.len())
    }
}

/// Puts a string into an ordered list.
fn place(v: &mut Vec<String>, x: String)
    ensures
        text::views(final(v)@) == placed(text::views(old(v)@), x@),
        final(v)@.len() == old(v)@.len() + 1,
{
    let ghost all = text::views(v@);
    let ghost name = x@;
    let mut i: usize = v.len();
    assert(all.take(i as int) + all.skip(i as int) == all);
    assert(placed(all.take(i as int), name) + all.skip(i as int) == placed(all, name)) by {
        assert(all.take(i as int) == all);
        assert(placed(all, name) + all.skip(i as int) == placed(all, name));
    }
    while i > 0 && sorted_map::less(x.as_str(), v[i - 1].as_str())
        invariant
            all == text::views(v@),
            name == x@,
            i <= v@.len(),
            placed(all.take(i as int), name) + all.skip(i as int) == placed(all, name),
        decreases i,
    {
        proof {
            let t = all.take(i as int);
            assert(t.last() == all[i - 1]);
            assert(t.drop_last() == all.take(i - 1));
            assert(all.skip(i - 1) == seq![all[i - 1]] + all.skip(i as int));
            assert(placed(all.take(i - 1), name) + all.skip(i - 1) == placed(
                all.take(i - 1),
                name,
            ).push(all[i - 1]) + all.skip(i as int));
        }
        i -= 1;
    }
    proof {
        let t = all.take(i as int);
        if i > 0 {
            assert(t.last() == all[i - 1]);
        }
        assert(placed(t, name) == t.push(name));
        assert(t.push(name) + all.skip(i as int) == all.insert(i as int, name));
    }
    v.insert(i, x);
    assert(text::views(v@) == all.insert(i as int, name));
}

fn ordered_lines(c: &SortedMap<u32>) -> (r: Vec<String>)
    requires
        c.wf(),
    ensures
        text::views(r@) == in_order(kind_lines(*c)),
{
    let ghost lines = kind_lines(*c);
    let mut out: Vec<String> = Vec::new();
    let n: usize = c.len();
    let mut i: usize = 0;
    assert(text::views(out@) == in_order(lines.take(0)));
    while i < n
        invariant
            c.wf(),
            lines == kind_lines(*c),
            n == c.spec_keys().len(),
            i <= n,
            text::views(out@) == in_order(lines.take(i as int)),
        decreases n - i,
    {
        let mut line = text::owned(c.key(i));
        line.append(": ");
        line.append(text::decimal_of(*c.value(i) as u64).as_str());
        proof {
            assert(line@ == lines[i as int]);
            assert(lines.take(i + 1).drop_last() == lines.take(i as int));
            assert(lines.take(i + 1).last() == lines[i as int]);
        }
        place(&mut out, line);
        i += 1;
    }
    assert(lines.take(n as int) == lines);
    out
}

fn row(r: &CaptchaTelemetryRecord) -> (out: String)
    requires
        r.counts.wf(),
        r.spec_total() <= u32::MAX,
    ensures
        out@ == row_text(*r),
{
    let mut out = text::owned("  ");
    out.append(text::pad_right(r.host.as_str(), 20).as_str());
    out.append(" — ");
    out.append(text::pad_left(text::decimal_of(r.total() as u64).as_str(), 3, ' ').as_str());
    out.append(" total [");
    if r.expected {
        out.append("expected");
    } else {
        out.append("new     ");
    }
    out.append("] — ");
    out.append(text::join(&ordered_lines(&r.counts), ", ").as_str());
    out.append("\n");
    out
}

impl CaptchaTelemetry {
    /// Renders the rows for the user.
    pub fn summary(&self) -> (r: String)
        requires
            self.wf(),
            forall|i: int|
                0 <= i < self.rows.spec_values().len() ==> (
                #[trigger] self.rows.spec_values()[i]).spec_total() <= u32::MAX,
        ensures
            r@ == summary_text(*self),
    {
        let n: usize = self.rows.len();
        if n == 0 {
            return text::owned("Captcha telemetry (local-only): no challenges recorded yet.");
        }
        let mut out = text::owned("Captcha telemetry (local-only):\n");
        let mut i: usize = 0;
        while i < n
            invariant
                self.wf(),
                forall|j: int|
                    0 <= j < self.rows.spec_values().len() ==> (
                    #[trigger] self.rows.spec_values()[j]).spec_total() <= u32::MAX,
                n == self.rows.spec_values().len(),
                i <= n,
                out@ == rows_text(self.rows.spec_values(), i as nat),
            decreases n - i,
        {
            out.append(row(self.rows.value(i)).as_str());
            i += 1;
        }
        out
    }
}

// ---------------------------------------------------------------------------
// Laws
// ---------------------------------------------------------------------------

/// Letter case and a leading `www.` make no difference to the host.
pub proof fn law_hosts_fold(a: Seq<char>, b: Seq<char>)
    requires
        text::ascii_lowercase(a) == text::ascii_lowercase(b),
    ensures
        host_of(a) == host_of(b),
        !"www."@.is_prefix_of(text::ascii_lowercase(a)) ==> host_of("www."@ + b) == host_of(a),
{
    reveal_strlit("www.");
    let w = "www."@ + b;
    let lower = text::ascii_lowercase(w);
    assert(lower == "www."@ + text::ascii_lowercase(b)) by {
        assert(lower.len() == 4 + b.len());
        assert forall|i: int| 0 <= i < lower.len() implies lower[i] == ("www."@
            + text::ascii_lowercase(b))[i] by {
            if i >= 4 {
                assert(w[i] == b[i - 4]);
            } else {
                assert(w[i] == "www."@[i]);
            }
        }
    }
    assert("www."@.is_prefix_of(lower));
    assert(lower.subrange(4, lower.len() as int) == text::ascii_lowercase(b));
}

/// Folding a host that does not itself begin with `www.` changes nothing.
pub proof fn law_folding_is_stable(name: Seq<char>)
    requires
        !"www."@.is_prefix_of(host_of(name)),
    ensures
        host_of(host_of(name)) == host_of(name),
{
    let h = host_of(name);
    assert forall|i: int| 0 <= i < h.len() implies text::ascii_lower(#[trigger] h[i]) == h[i] by {
        reveal_strlit("www.");
        if "www."@.is_prefix_of(text::ascii_lowercase(name)) {
            assert(h[i] == text::ascii_lower(name[i + 4]));
        } else {
            assert(h[i] == text::ascii_lower(name[i]));
        }
    }
    assert(text::ascii_lowercase(h) == h);
}

proof fn lemma_last_row(s: Seq<CaptchaTelemetryRecord>, host: Seq<char>)
    ensures
        match last_row(s, host) {
            Some(row) => row.host@ == host && exists|i: int| 0 <= i < s.len() && s[i] == row,
            None => forall|i: int| 0 <= i < s.len() ==> (#[trigger] s[i]).host@ != host,
        },
    decreases s.len(),
{
    if s.len() > 0 {
        let t = s.drop_last();
        lemma_last_row(t, host);
        if s.last().host@ == host {
            assert(s[s.len() - 1] == s.last());
        } else {
            assert forall|i: int| 0 <= i < t.len() implies t[i] == s[i] by {}
            if last_row(s, host) is Some {
                let i = choose|i: int| 0 <= i < t.len() && t[i] == last_row(t, host)->0;
                assert(s[i] == last_row(s, host)->0);
            } else {
                assert forall|i: int| 0 <= i < s.len() implies (#[trigger] s[i]).host@ != host by {
                    if i < t.len() {
                        assert(t[i].host@ != host);
                    }
                }
            }
        }
    }
}

/// What is stored comes back: telemetry that is restored from the snapshot of
/// another lists the same rows in the same order.
pub proof fn law_stored_rows_come_back(
    before: CaptchaTelemetry,
    rows: Seq<CaptchaTelemetryRecord>,
    after: CaptchaTelemetry,
)
    requires
        before.wf(),
        before.listed_in(rows),
        after.wf(),
        after.holds_last(rows),
    ensures
        after.rows.spec_keys() == before.rows.spec_keys(),
        before.listed_in(after.rows.spec_values()),
        after.listed_in(rows),
{
    let keys = before.rows.spec_keys();
    let values = before.rows.spec_values();
    let new_keys = after.rows.spec_keys();
    let new_values = after.rows.spec_values();
    assert forall|h: Seq<char>| #[trigger] new_keys.contains(h) <==> keys.contains(h) by {
        lemma_stored_row(before, rows, after, h);
    }
    sorted_map::lemma_same_keys(new_keys, keys);
    assert forall|i: int| 0 <= i < keys.len() implies (#[trigger] new_values[i]).same(values[i])
        && rows[i].same(new_values[i]) by {
        lemma_stored_row(before, rows, after, keys[i]);
        sorted_map::lemma_entry_at(keys, values, i);
        sorted_map::lemma_entry_at(new_keys, new_values, i);
        assert(rows[i].same(values[i]));
    }
}

/// The row of one host comes back.
proof fn lemma_stored_row(
    before: CaptchaTelemetry,
    rows: Seq<CaptchaTelemetryRecord>,
    after: CaptchaTelemetry,
    host: Seq<char>,
)
    requires
        before.wf(),
        before.listed_in(rows),
        after.holds_last(rows),
    ensures
        match before.row(host) {
            Some(row) => after.row(host) is Some && after.row(host)->0.same(row),
            None => after.row(host) is None,
        },
{
    let keys = before.rows.spec_keys();
    let values = before.rows.spec_values();
    lemma_last_row(rows, host);
    assert(after.row(host) is Some <==> last_row(rows, host) is Some);
    match last_row(rows, host) {
        Some(row) => {
            let i = choose|i: int| 0 <= i < rows.len() && rows[i] == row;
            assert(rows[i].same(values[i]));
            assert(values[i].counts.wf());
            sorted_map::lemma_entry_at(keys, values, i);
        },
        None => {
            if keys.contains(host) {
                let i = keys.index_of(host);
                assert(values[i].counts.wf());
                assert(rows[i].same(values[i]));
            }
        },
    }
}

proof fn lemma_placed(s: Seq<Seq<char>>, x: Seq<char>)
    requires
        forall|i: int, j: int|
            0 <= i < j < s.len() ==> !sorted_map::text_less(#[trigger] s[j], #[trigger] s[i]),
    ensures
        forall|i: int, j: int|
            0 <= i < j < placed(s, x).len() ==> !sorted_map::text_less(
                #[trigger] placed(s, x)[j],
                #[trigger] placed(s, x)[i],
            ),
        placed(s, x).to_multiset() == s.to_multiset().insert(x),
        placed(s, x).len() == s.len() + 1,
        forall|i: int| 0 <= i < placed(s, x).len() ==> #[trigger] placed(s, x)[i] == x || s.contains(
            placed(s, x)[i],
        ),
    decreases s.len(),
{
    broadcast use vstd::seq_lib::group_to_multiset_ensures;

    if s.len() > 0 && sorted_map::text_less(x, s.last()) {
        let t = s.drop_last();
        lemma_placed(t, x);
        let p = placed(t, x);
        let r = placed(s, x);
        assert(s == t.push(s.last()));
        assert(r.to_multiset() =~= s.to_multiset().insert(x));
        assert forall|i: int, j: int| 0 <= i < j < r.len() implies !sorted_map::text_less(
            #[trigger] r[j],
            #[trigger] r[i],
        ) by {
            if j == r.len() - 1 {
                assert(r[i] == p[i]);
                if p[i] == x {
                    sorted_map::lemma_irreflexive(x);
                    if sorted_map::text_less(s.last(), x) {
                        sorted_map::lemma_transitive(x, s.last(), x);
                    }
                } else {
                    assert(t.contains(p[i]));
                    let k = t.index_of(p[i]);
                    assert(s[k] == p[i]);
                }
            } else {
                assert(r[i] == p[i] && r[j] == p[j]);
            }
        }
        assert forall|i: int| 0 <= i < r.len() implies #[trigger] r[i] == x || s.contains(r[i]) by {
            if i < p.len() {
                assert(r[i] == p[i]);
                if p[i] != x {
                    assert(t.contains(p[i]));
                    let k = t.index_of(p[i]);
                    assert(s[k] == p[i]);
                }
            } else {
                assert(s[s.len() - 1] == r[i]);
            }
        }
    } else {
        let r = s.push(x);
        assert forall|i: int, j: int| 0 <= i < j < r.len() implies !sorted_map::text_less(
            #[trigger] r[j],
            #[trigger] r[i],
        ) by {
            if j == s.len() {
                if sorted_map::text_less(x, s[i]) && i < s.len() - 1 {
                    assert(!sorted_map::text_less(s[s.len() - 1], s[i]));
                    sorted_map::lemma_total(s[i], s.last());
                    if s[i] != s.last() {
                        sorted_map::lemma_transitive(x, s[i], s.last());
                    }
                }
            }
        }
        assert forall|i: int| 0 <= i < r.len() implies #[trigger] r[i] == x || s.contains(r[i]) by {
            if i < s.len() {
                assert(s[i] == r[i]);
            }
        }
    }
}

/// The counts of a row are listed in order, none is lost and none is added.
pub proof fn law_counts_are_listed_in_order(s: Seq<Seq<char>>)
    ensures
        forall|i: int, j: int|
            0 <= i < j < in_order(s).len() ==> !sorted_map::text_less(
                #[trigger] in_order(s)[j],
                #[trigger] in_order(s)[i],
            ),
        in_order(s).to_multiset() == s.to_multiset(),
    decreases s.len(),
{
    broadcast use vstd::seq_lib::group_to_multiset_ensures;

    if s.len() > 0 {
        law_counts_are_listed_in_order(s.drop_last());
        lemma_placed(in_order(s.drop_last()), s.last());
        assert(s == s.drop_last().push(s.last()));
    }
}

/// Folding a host takes nothing off but a leading `www.`, and leaves no upper case.
pub proof fn law_folding_takes_off_only_the_prefix(name: Seq<char>)
    ensures
        host_of(name).is_suffix_of(text::ascii_lowercase(name)),
        host_of(name).len() == name.len() || host_of(name).len() + 4 == name.len(),
        host_of(name).len() < name.len() <==> "www."@.is_prefix_of(text::ascii_lowercase(name)),
        forall|i: int|
            0 <= i < host_of(name).len() ==> !('A' <= #[trigger] host_of(name)[i] <= 'Z'),
{
    reveal_strlit("www.");
    let lower = text::ascii_lowercase(name);
    let h = host_of(name);
    assert(lower.subrange(0, lower.len() as int) =~= lower);
    assert forall|i: int| 0 <= i < h.len() implies !('A' <= #[trigger] h[i] <= 'Z') by {
        let k = i + (lower.len() - h.len());
        assert(h[i] == lower[k]);
        assert(lower[k] == text::ascii_lower(name[k]));
    }
}

/// A challenge that was met counts one more of its kind and no other, and moves the time
/// at which the host was seen last; when it was seen first stays.
pub proof fn law_a_meeting_counts_one(
    before: Option<CaptchaTelemetryRecord>,
    row: CaptchaTelemetryRecord,
    host: Seq<char>,
    kind: ChallengeKind,
    other: ChallengeKind,
    now: u64,
)
    requires
        met(before, row, host, kind, now),
        before matches Some(b) ==> count_of(b.counts, kind) < u32::MAX,
    ensures
        row.host@ == host,
        row.last_seen_unix_secs == now,
        before matches Some(b) ==> {
            &&& count_of(row.counts, kind) == count_of(b.counts, kind) + 1
            &&& other != kind ==> count_of(row.counts, other) == count_of(b.counts, other)
            &&& b.first_seen_unix_secs != 0 ==> row.first_seen_unix_secs == b.first_seen_unix_secs
            &&& row.expected == b.expected
        },
        before is None ==> {
            &&& count_of(row.counts, kind) == 1
            &&& other != kind ==> count_of(row.counts, other) == 0
            &&& row.first_seen_unix_secs == now
            &&& !row.expected
        },
{
    if before is Some && other != kind {
        lemma_kind_names_differ(kind, other);
    }
    assert(row.counts.at(kind.spec_name()) == row.counts.at(kind.spec_name()));
    assert(row.counts.at(other.spec_name()) == row.counts.at(other.spec_name()));
}

proof fn lemma_kind_names_differ(a: ChallengeKind, b: ChallengeKind)
    requires
        a != b,
    ensures
        a.spec_name() != b.spec_name(),
{
    reveal_strlit("cloudflare_turnstile");
    reveal_strlit("recaptcha_v2");
    reveal_strlit("recaptcha_v3");
    reveal_strlit("hcaptcha");
    let x = a.spec_name();
    let y = b.spec_name();
    if x == y {
        assert(x.len() == y.len());
        assert(x[0] == y[0]);
        assert(x.last() == y.last());
    }
}

/// A host that is marked as expected is, and its counts and times stay.
pub proof fn law_a_mark_changes_nothing_else(
    before: CaptchaTelemetryRecord,
    row: CaptchaTelemetryRecord,
    host: Seq<char>,
    kind: ChallengeKind,
    now: u64,
)
    requires
        marked(Some(before), row, host, now),
    ensures
        row.expected,
        row.host == before.host,
        row.spec_total() == before.spec_total(),
        count_of(row.counts, kind) == count_of(before.counts, kind),
        row.first_seen_unix_secs == before.first_seen_unix_secs,
        row.last_seen_unix_secs == before.last_seen_unix_secs,
{
}

/// The row of a host shows the host, how many challenges were met there, whether they
/// are expected, and the count of every kind.
pub proof fn law_rows_show_every_count(r: CaptchaTelemetryRecord, j: int)
    ensures
        text::occurs(row_text(r), r.host@),
        text::occurs(row_text(r), text::decimal(r.spec_total())),
        text::occurs(
            row_text(r),
            if r.expected {
                "expected"@
            } else {
                "new     "@
            },
        ),
        0 <= j < r.counts.spec_keys().len() ==> text::occurs(
            row_text(r),
            r.counts.spec_keys()[j] + ": "@ + text::decimal(r.counts.spec_values()[j] as nat),
        ),
{
    broadcast use text::group_occurs;

    let w = row_text(r);
    let host = text::padded_right(r.host@, 20);
    text::law_padding_on_the_right(r.host@, 20);
    assert(text::occurs_at(host, r.host@, 0));
    assert(text::occurs(w, host));
    text::lemma_occurs_through(w, host, r.host@);
    let d = text::decimal(r.spec_total());
    let total = text::padded_left(d, 3, ' ');
    text::law_padding_on_the_left(d, 3, ' ');
    assert(total =~= total.take(total.len() - d.len()) + d);
    assert(text::occurs(w, total));
    text::lemma_occurs_through(w, total, d);
    if 0 <= j < r.counts.spec_keys().len() {
        let lines = kind_lines(r.counts);
        let shown = in_order(lines);
        law_counts_are_listed_in_order(lines);
        lines.to_multiset_ensures();
        shown.to_multiset_ensures();
        assert(lines.contains(lines[j]));
        assert(shown.to_multiset().count(lines[j]) > 0);
        assert(shown.contains(lines[j]));
        let k = choose|k: int| 0 <= k < shown.len() && shown[k] == lines[j];
        text::law_joined_holds_each_part(shown, ", "@, k);
        text::lemma_occurs_here(
            text::joined(shown, ", "@),
            shown[k],
            text::part_start(shown, ", "@, k),
        );
        assert(text::occurs(w, text::joined(shown, ", "@)));
        text::lemma_occurs_through(w, text::joined(shown, ", "@), shown[k]);
    }
}

proof fn lemma_row_listed(rows: Seq<CaptchaTelemetryRecord>, n: nat, i: int)
    requires
        0 <= i < n <= rows.len(),
    ensures
        text::occurs(rows_text(rows, n), row_text(rows[i])),
    decreases n,
{
    broadcast use text::group_occurs;

    if i < n - 1 {
        lemma_row_listed(rows, (n - 1) as nat, i);
    }
}

/// The summary lists every host.
pub proof fn law_summaries_list_every_host(t: CaptchaTelemetry, i: int)
    requires
        0 <= i < t.rows.spec_values().len(),
    ensures
        text::occurs(summary_text(t), row_text(t.rows.spec_values()[i])),
{
    lemma_row_listed(t.rows.spec_values(), t.rows.spec_values().len(), i);
}

/// A file right below a directory has the path of the directory before it, its own name
/// at the end, and at most one separator between them.
pub proof fn law_paths_lead_through_the_directory(
    dir: Seq<char>,
    name: Seq<char>,
    path: Seq<char>,
)
    requires
        right_below(dir, name, path),
    ensures
        dir.is_prefix_of(path),
        name.is_suffix_of(path),
        dir.len() + name.len() <= path.len() <= dir.len() + name.len() + 1,
        path.len() == dir.len() + name.len() + 1 ==> path[dir.len() as int] == '/'
            || path[dir.len() as int] == '\\',
        dir.len() > 0 && dir.last() != '/' && dir.last() != '\\' && dir.last() != ':' ==> path.len()
            == dir.len() + name.len() + 1,
{
    reveal_strlit("/");
    reveal_strlit("\\");
    assert(path.subrange(0, dir.len() as int) =~= dir);
    assert(path.subrange(path.len() - name.len(), path.len() as int) =~= name);
}

} // verus!
