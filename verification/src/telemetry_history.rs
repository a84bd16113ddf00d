//! What the challenge telemetry tells of all the calls that led to it.

use vstd::prelude::*;
use crate::captcha_telemetry;
use crate::captcha_telemetry::{CaptchaTelemetry, CaptchaTelemetryRecord};
use crate::resilience::ChallengeKind;
use crate::sorted_map;
use crate::sorted_map::SortedMap;

verus! {

/// Whether the telemetry went through `states`, from no rows on, by one call
/// after the other, each of which it could take.
pub open spec fn ran(
    states: Seq<CaptchaTelemetry>,
    calls: Seq<captcha_telemetry::TelemetryCall>,
) -> bool {
    &&& states.len() == calls.len() + 1
    &&& states[0].wf()
    &&& states[0].rows.spec_keys().len() == 0
    &&& forall|i: int|
        0 <= i < calls.len() ==> {
            &&& states[i].takes(#[trigger] calls[i])
            &&& states[i].took(calls[i], states[i + 1])
        }
}

/// How often a challenge of a kind was met at a host.
pub open spec fn times_met(
    calls: Seq<captcha_telemetry::TelemetryCall>,
    host: Seq<char>,
    kind: ChallengeKind,
) -> nat
    decreases calls.len(),
{
    if calls.len() == 0 {
        0
    } else {
        times_met(calls.drop_last(), host, kind) + if is_meeting(calls.last(), host, kind) {
            1nat
        } else {
            0nat
        }
    }
}

pub open spec fn is_meeting(
    call: captcha_telemetry::TelemetryCall,
    host: Seq<char>,
    kind: ChallengeKind,
) -> bool {
    call.about(host) && call is Met && call->kind == kind
}

/// How often challenges of any kind were met at a host.
pub open spec fn times_met_at_all(
    calls: Seq<captcha_telemetry::TelemetryCall>,
    host: Seq<char>,
) -> nat {
    times_met(calls, host, ChallengeKind::CloudflareTurnstile) + times_met(
        calls,
        host,
        ChallengeKind::Hcaptcha,
    ) + times_met(calls, host, ChallengeKind::RecaptchaV2) + times_met(
        calls,
        host,
        ChallengeKind::RecaptchaV3,
    )
}

/// Whether some call is about a host.
pub open spec fn is_named(calls: Seq<captcha_telemetry::TelemetryCall>, host: Seq<char>) -> bool {
    exists|i: int| 0 <= i < calls.len() && (#[trigger] calls[i]).about(host)
}

/// Whether some call marks a host as expected.
pub open spec fn is_marked(calls: Seq<captcha_telemetry::TelemetryCall>, host: Seq<char>) -> bool {
    exists|i: int|
        0 <= i < calls.len() && (#[trigger] calls[i]).about(host) && calls[i] is Marked
}

/// The names of the kinds, in order.
pub open spec fn kind_names() -> Seq<Seq<char>> {
    seq!["cloudflare_turnstile"@, "hcaptcha"@, "recaptcha_v2"@, "recaptcha_v3"@]
}

/// Whether the row of a host tells what the calls did.
pub open spec fn tells(
    row: CaptchaTelemetryRecord,
    calls: Seq<captcha_telemetry::TelemetryCall>,
    host: Seq<char>,
) -> bool {
    &&& row.host@ == host
    &&& row.counts.spec_keys() == kind_names()
    &&& forall|k: ChallengeKind|
        #[trigger] captcha_telemetry::count_of(row.counts, k) == times_met(calls, host, k)
    &&& row.spec_total() == times_met_at_all(calls, host)
    &&& row.expected == is_marked(calls, host)
}

// ---------------------------------------------------------------------------
// Lemmas
// ---------------------------------------------------------------------------

proof fn lemma_kind_names_ascend()
    ensures
        sorted_map::ascending(kind_names()),
{
    reveal_strlit("cloudflare_turnstile");
    reveal_strlit("recaptcha_v2");
    reveal_strlit("recaptcha_v3");
    reveal_strlit("hcaptcha");
    let names = kind_names();
    assert forall|i: int, j: int| 0 <= i < j < names.len() implies sorted_map::text_less(
        #[trigger] names[i],
        #[trigger] names[j],
    ) by {
        if i == 2 && j == 3 {
            let (a, b) = (names[i], names[j]);
            assert(a.len() == 12 && b.len() == 12);
            assert(a.take(11) == b.take(11));
            sorted_map::lemma_less_at(a, b, 11);
        } else {
            assert(names[i].take(0) == names[j].take(0));
            sorted_map::lemma_less_at(names[i], names[j], 0);
        }
    }
}

/// Which name stands where among the names of the kinds.
proof fn lemma_kind_name_at(i: int) -> (k: ChallengeKind)
    requires
        0 <= i < 4,
    ensures
        kind_names()[i] == k.spec_name(),
        i == 0 ==> k == ChallengeKind::CloudflareTurnstile,
        i == 1 ==> k == ChallengeKind::Hcaptcha,
        i == 2 ==> k == ChallengeKind::RecaptchaV2,
        i == 3 ==> k == ChallengeKind::RecaptchaV3,
{
    if i == 0 {
        ChallengeKind::CloudflareTurnstile
    } else if i == 1 {
        ChallengeKind::Hcaptcha
    } else if i == 2 {
        ChallengeKind::RecaptchaV2
    } else {
        ChallengeKind::RecaptchaV3
    }
}

proof fn lemma_kind_is_named(k: ChallengeKind)
    ensures
        kind_names().contains(k.spec_name()),
{
    let names = kind_names();
    match k {
        ChallengeKind::CloudflareTurnstile => {
            assert(names[0] == k.spec_name());
        },
        ChallengeKind::Hcaptcha => {
            assert(names[1] == k.spec_name());
        },
        ChallengeKind::RecaptchaV2 => {
            assert(names[2] == k.spec_name());
        },
        ChallengeKind::RecaptchaV3 => {
            assert(names[3] == k.spec_name());
        },
    }
}

/// Four keys among which every kind has its own are the names of the kinds.
proof fn lemma_four_keys(c: SortedMap<u32>)
    requires
        c.wf(),
        c.spec_keys().len() == 4,
        forall|k: ChallengeKind| (#[trigger] c.at(k.spec_name())) is Some,
    ensures
        c.spec_keys() == kind_names(),
{
    let keys = c.spec_keys();
    let names = kind_names();
    lemma_kind_names_ascend();
    let inner = names.to_set();
    let outer = keys.to_set();
    assert(inner.subset_of(outer)) by {
        assert forall|x: Seq<char>| #[trigger] inner.contains(x) implies outer.contains(x) by {
            let i = choose|i: int| 0 <= i < names.len() && names[i] == x;
            let k = lemma_kind_name_at(i);
            assert(c.at(k.spec_name()) is Some);
            assert(keys.contains(x));
        }
    }
    assert(names.no_duplicates()) by {
        assert forall|i: int, j: int|
            0 <= i < names.len() && 0 <= j < names.len() && i != j implies names[i] != names[j] by {
            sorted_map::lemma_irreflexive(names[i]);
            if i < j {
                assert(sorted_map::text_less(names[i], names[j]));
            } else {
                assert(sorted_map::text_less(names[j], names[i]));
            }
        }
    }
    vstd::seq_lib::seq_to_set_is_finite(names);
    vstd::seq_lib::seq_to_set_is_finite(keys);
    names.unique_seq_to_set();
    keys.lemma_cardinality_of_set();
    vstd::set_lib::lemma_len_subset(inner, outer);
    vstd::set_lib::lemma_subset_equality(inner, outer);
    assert forall|x: Seq<char>| #[trigger] keys.contains(x) <==> names.contains(x) by {
        assert(inner.contains(x) <==> outer.contains(x));
    }
    sorted_map::lemma_same_keys(keys, names);
}

/// The total of a row is the sum of the counts of the kinds.
proof fn lemma_total(row: CaptchaTelemetryRecord)
    requires
        row.counts.wf(),
        row.counts.spec_keys() == kind_names(),
    ensures
        row.spec_total() == captcha_telemetry::count_of(
            row.counts,
            ChallengeKind::CloudflareTurnstile,
        ) + captcha_telemetry::count_of(row.counts, ChallengeKind::Hcaptcha)
            + captcha_telemetry::count_of(row.counts, ChallengeKind::RecaptchaV2)
            + captcha_telemetry::count_of(row.counts, ChallengeKind::RecaptchaV3),
{
    let keys = row.counts.spec_keys();
    let v = row.counts.spec_values();
    assert forall|i: int| 0 <= i < 4 implies row.counts.at(#[trigger] keys[i]) == Some(v[i]) by {
        sorted_map::lemma_entry_at(keys, v, i);
    }
    let a = lemma_kind_name_at(0);
    let b = lemma_kind_name_at(1);
    let c = lemma_kind_name_at(2);
    let d = lemma_kind_name_at(3);
    assert(keys[0] == a.spec_name() && keys[1] == b.spec_name() && keys[2] == c.spec_name()
        && keys[3] == d.spec_name());
    let v3 = v.drop_last();
    let v2 = v3.drop_last();
    let v1 = v2.drop_last();
    assert(captcha_telemetry::sum(v1.drop_last()) == 0);
    assert(v1.last() == v[0] && v2.last() == v[1] && v3.last() == v[2]);
    assert(captcha_telemetry::sum(v1) == v[0]);
    assert(captcha_telemetry::sum(v2) == v[0] + v[1]);
    assert(captcha_telemetry::sum(v3) == v[0] + v[1] + v[2]);
}

proof fn lemma_named_last(calls: Seq<captcha_telemetry::TelemetryCall>, host: Seq<char>)
    requires
        calls.len() > 0,
    ensures
        is_named(calls, host) <==> is_named(calls.drop_last(), host) || calls.last().about(host),
        is_marked(calls, host) <==> is_marked(calls.drop_last(), host) || (calls.last().about(host)
            && calls.last() is Marked),
{
    let head = calls.drop_last();
    assert(calls[calls.len() - 1] == calls.last());
    if is_named(head, host) {
        let i = choose|i: int| 0 <= i < head.len() && (#[trigger] head[i]).about(host);
        assert(calls[i].about(host));
    }
    if is_marked(head, host) {
        let i = choose|i: int|
            0 <= i < head.len() && (#[trigger] head[i]).about(host) && head[i] is Marked;
        assert(calls[i].about(host));
    }
    if is_named(calls, host) && !calls.last().about(host) {
        let i = choose|i: int| 0 <= i < calls.len() && (#[trigger] calls[i]).about(host);
        assert(head[i].about(host));
    }
    if is_marked(calls, host) && !(calls.last().about(host) && calls.last() is Marked) {
        let i = choose|i: int|
            0 <= i < calls.len() && (#[trigger] calls[i]).about(host) && calls[i] is Marked;
        assert(head[i].about(host));
    }
}

proof fn lemma_times_met(
    calls: Seq<captcha_telemetry::TelemetryCall>,
    host: Seq<char>,
    kind: ChallengeKind,
)
    ensures
        times_met(calls, host, kind) > 0 ==> is_named(calls, host),
    decreases calls.len(),
{
    if calls.len() > 0 {
        lemma_times_met(calls.drop_last(), host, kind);
        lemma_named_last(calls, host);
    }
}

/// A row that told of the calls so far tells of one more.
proof fn lemma_row_after(
    before: CaptchaTelemetry,
    calls: Seq<captcha_telemetry::TelemetryCall>,
    after: CaptchaTelemetry,
    host: Seq<char>,
)
    requires
        calls.len() > 0,
        before.wf(),
        before.takes(calls.last()),
        before.took(calls.last(), after),
        calls.last().about(host),
        before.row(host) is Some <==> is_named(calls.drop_last(), host),
        before.row(host) is Some ==> tells(before.row(host)->0, calls.drop_last(), host),
    ensures
        after.row(host) is Some,
        tells(after.row(host)->0, calls, host),
{
    let head = calls.drop_last();
    let row = after.row(host)->0;
    let call = calls.last();
    lemma_named_last(calls, host);
    assert forall|k: ChallengeKind| times_met(calls, host, k) == #[trigger] times_met(head, host, k)
        + (if is_meeting(call, host, k) {
        1nat
    } else {
        0nat
    }) by {}
    assert forall|k: ChallengeKind| before.row(host) is None implies #[trigger] times_met(
        head,
        host,
        k,
    ) == 0 by {
        lemma_times_met(head, host, k);
    }
    match before.row(host) {
        Some(b) => {
            match call {
                captcha_telemetry::TelemetryCall::Met { kind, .. } => {
                    lemma_kind_is_named(kind);
                    assert(captcha_telemetry::count_of(b.counts, kind) == times_met(
                        head,
                        host,
                        kind,
                    ));
                    assert forall|x: Seq<char>| #[trigger]
                        row.counts.spec_keys().contains(x) <==> kind_names().contains(x) by {
                        if x != kind.spec_name() {
                            assert(row.counts.at(x) == b.counts.at(x));
                        } else {
                            assert(row.counts.at(x) is Some);
                        }
                    }
                    lemma_kind_names_ascend();
                    sorted_map::lemma_same_keys(row.counts.spec_keys(), kind_names());
                    assert forall|k: ChallengeKind|
                        #[trigger] captcha_telemetry::count_of(row.counts, k) == times_met(
                            calls,
                            host,
                            k,
                        ) by {
                        captcha_telemetry::lemma_kind_names(k, kind);
                        assert(captcha_telemetry::count_of(b.counts, k) == times_met(
                            head,
                            host,
                            k,
                        ));
                        if k != kind {
                            assert(row.counts.at(k.spec_name()) == b.counts.at(k.spec_name()));
                        }
                    }
                },
                captcha_telemetry::TelemetryCall::Marked { .. } => {
                    assert forall|k: ChallengeKind|
                        #[trigger] captcha_telemetry::count_of(row.counts, k) == times_met(
                            calls,
                            host,
                            k,
                        ) by {
                        assert(row.counts.at(k.spec_name()) == b.counts.at(k.spec_name()));
                        assert(captcha_telemetry::count_of(b.counts, k) == times_met(
                            head,
                            host,
                            k,
                        ));
                    }
                },
            }
        },
        None => {
            if is_marked(head, host) {
                let i = choose|i: int|
                    0 <= i < head.len() && (#[trigger] head[i]).about(host) && head[i] is Marked;
                assert(head[i].about(host));
            }
            lemma_four_keys(row.counts);
            assert forall|k: ChallengeKind|
                #[trigger] captcha_telemetry::count_of(row.counts, k) == times_met(
                    calls,
                    host,
                    k,
                ) by {
                assert(times_met(head, host, k) == 0);
                assert(row.counts.at(k.spec_name()) is Some);
            }
        },
    }
    lemma_total(row);
}

/// The row of a host after all calls.
proof fn lemma_row(
    states: Seq<CaptchaTelemetry>,
    calls: Seq<captcha_telemetry::TelemetryCall>,
    host: Seq<char>,
)
    requires
        ran(states, calls),
    ensures
        states.last().wf(),
        states.last().row(host) is Some <==> is_named(calls, host),
        states.last().row(host) is Some ==> tells(states.last().row(host)->0, calls, host),
    decreases calls.len(),
{
    if calls.len() > 0 {
        let head = calls.drop_last();
        let n = calls.len() as int;
        let earlier = states.drop_last();
        assert(ran(earlier, head)) by {
            assert forall|i: int| 0 <= i < head.len() implies {
                &&& earlier[i].takes(#[trigger] head[i])
                &&& earlier[i].took(head[i], earlier[i + 1])
            } by {
                assert(states[i].took(calls[i], states[i + 1]));
            }
        }
        lemma_row(earlier, head, host);
        let before = states[n - 1];
        let after = states[n];
        assert(before.takes(calls[n - 1]) && before.took(calls[n - 1], after));
        assert(earlier.last() == before);
        lemma_named_last(calls, host);
        if calls.last().about(host) {
            lemma_row_after(before, calls, after, host);
        } else {
            if calls.last().domain().len() > 0 {
                assert(after.row(host) == before.row(host));
            }
            assert forall|k: ChallengeKind| #[trigger] times_met(calls, host, k) == times_met(
                head,
                host,
                k,
            ) by {}
        }
    }
}

// ---------------------------------------------------------------------------
// Laws
// ---------------------------------------------------------------------------

/// The snapshot tells the calls: after any sequence of them the hosts ascend, they
/// are exactly those that a call was about, and each row counts the challenges that
/// were met there, by kind and in all, and knows whether the host was marked.
pub proof fn law_snapshots_tell_the_calls(
    states: Seq<CaptchaTelemetry>,
    calls: Seq<captcha_telemetry::TelemetryCall>,
    rows: Seq<CaptchaTelemetryRecord>,
)
    requires
        ran(states, calls),
        states.last().listed_in(rows),
    ensures
        forall|i: int, j: int|
            0 <= i < j < rows.len() ==> sorted_map::text_less(
                (#[trigger] rows[i]).host@,
                (#[trigger] rows[j]).host@,
            ),
        forall|h: Seq<char>|
            #[trigger] is_named(calls, h) <==> exists|i: int|
                0 <= i < rows.len() && (#[trigger] rows[i]).host@ == h,
        forall|i: int| 0 <= i < rows.len() ==> tells(#[trigger] rows[i], calls, rows[i].host@),
{
    let t = states.last();
    let keys = t.rows.spec_keys();
    let values = t.rows.spec_values();
    lemma_row(states, calls, Seq::empty());
    assert forall|i: int| 0 <= i < rows.len() implies tells(#[trigger] rows[i], calls, rows[i].host@)
        && rows[i].host@ == keys[i] by {
        assert(rows[i].same(values[i]));
        assert(values[i].counts.wf());
        sorted_map::lemma_entry_at(keys, values, i);
        lemma_row(states, calls, keys[i]);
        assert(tells(values[i], calls, keys[i]));
        assert forall|k: ChallengeKind|
            #[trigger] captcha_telemetry::count_of(rows[i].counts, k) == times_met(
                calls,
                keys[i],
                k,
            ) by {
            assert(captcha_telemetry::count_of(values[i].counts, k) == times_met(
                calls,
                keys[i],
                k,
            ));
        }
    }
    assert forall|h: Seq<char>|
        #[trigger] is_named(calls, h) <==> exists|i: int|
            0 <= i < rows.len() && (#[trigger] rows[i]).host@ == h by {
        lemma_row(states, calls, h);
        if is_named(calls, h) {
            let i = keys.index_of(h);
            assert(rows[i].host@ == h);
        }
        if exists|i: int| 0 <= i < rows.len() && (#[trigger] rows[i]).host@ == h {
            let i = choose|i: int| 0 <= i < rows.len() && (#[trigger] rows[i]).host@ == h;
            assert(keys[i] == h);
            sorted_map::lemma_entry_at(keys, values, i);
        }
    }
}

/// Marking a host as expected a second time changes no row.
pub proof fn law_marking_twice_is_marking_once(
    before: CaptchaTelemetry,
    domain: Seq<char>,
    now: u64,
    once: CaptchaTelemetry,
    later: u64,
    twice: CaptchaTelemetry,
)
    requires
        before.wf(),
        before.took(captcha_telemetry::TelemetryCall::Marked { domain, now }, once),
        once.took(captcha_telemetry::TelemetryCall::Marked { domain, now: later }, twice),
    ensures
        twice.persist_path == once.persist_path,
        twice.rows.spec_keys() == once.rows.spec_keys(),
        once.listed_in(twice.rows.spec_values()),
{
    let host = captcha_telemetry::host_of(domain);
    let keys = once.rows.spec_keys();
    let values = once.rows.spec_values();
    let new_keys = twice.rows.spec_keys();
    let new_values = twice.rows.spec_values();
    assert forall|h: Seq<char>| #[trigger] new_keys.contains(h) <==> keys.contains(h) by {
        if domain.len() > 0 && h != host {
            assert(twice.row(h) == once.row(h));
        }
    }
    sorted_map::lemma_same_keys(new_keys, keys);
    assert forall|i: int| 0 <= i < new_values.len() implies (#[trigger] new_values[i]).same(
        values[i],
    ) by {
        sorted_map::lemma_entry_at(keys, values, i);
        sorted_map::lemma_entry_at(new_keys, new_values, i);
        if domain.len() > 0 && keys[i] != host {
            assert(twice.row(keys[i]) == once.row(keys[i]));
        }
    }
}

} // verus!
