//! Typed units of work that a planner hands to workers.
//!
//! A worker that reports a todo as done names the signature of the page that it
//! saw. The planner computes the signature of the reported page itself and
//! accepts the report only where the two agree and the evidence is newer than
//! any that was looked at before.

use vstd::prelude::*;
use std::collections::hash_map::DefaultHasher;
use std::hash::Hasher;
use vstd::slice::slice_subrange;
use vstd::std_specs::hash::*;
use vstd::string::*;
use crate::digest;
use crate::planner;
use crate::text;

verus! {

// ---------------------------------------------------------------------------
// Page signatures
// ---------------------------------------------------------------------------

/// How many bytes from each end of a long page go into its signature.
pub const EDGE: usize = 200;

/// Whether a page can be signed: where it is longer than `EDGE` bytes, both cuts
/// fall between characters.
pub open spec fn signable(page: Seq<char>) -> bool {
    let bytes = vstd::utf8::encode_utf8(page);
    bytes.len() > EDGE ==> {
        &&& vstd::utf8::is_char_boundary(bytes, EDGE as int)
        &&& vstd::utf8::is_char_boundary(bytes, bytes.len() - EDGE)
    }
}

/// What goes into the digest of a page: its length in bytes, and its text, of
/// which only both ends where it is long.
pub open spec fn page_chunks(page: Seq<char>) -> Seq<Seq<u8>> {
    let bytes = vstd::utf8::encode_utf8(page);
    let head = seq![digest::size_chunk(bytes.len())];
    if bytes.len() > EDGE {
        head + digest::text_chunks(bytes.subrange(0, EDGE as int)) + digest::text_chunks(
            bytes.subrange(bytes.len() - EDGE, bytes.len() as int),
        )
    } else {
        head + digest::text_chunks(bytes)
    }
}

/// The signature of a page: `len:` and its digest in hexadecimal, on at least
/// eight places.
pub open spec fn signature_text(page: Seq<char>) -> Seq<char> {
    "len:"@ + text::padded_left(
        text::digits(digest::digest(page_chunks(page)) as nat, 16),
        8,
        '0',
    )
}

/// Whether `planner_signature` takes the page.
pub fn is_signable(page: &str) -> (r: bool)
    ensures
        r == signable(page@),
{
    let n: usize = page.as_bytes().len();
    n <= EDGE || (page.is_char_boundary(EDGE) && page.is_char_boundary(n - EDGE))
}

/// Computes the signature of a page.
pub fn planner_signature(obs_text: &str) -> (r: String)
    requires
        signable(obs_text@),
    ensures
        r@ == signature_text(obs_text@),
{
    let bytes = obs_text.as_bytes();
    let n: usize = bytes.len();
    let mut h = DefaultHasher::new();
    digest::feed_size(&mut h, n);
    assert(h@ == seq![digest::size_chunk(n as nat)]);
    if n > EDGE {
        digest::feed_text(&mut h, slice_subrange(bytes, 0, EDGE));
        digest::feed_text(&mut h, slice_subrange(bytes, n - EDGE, n));
    } else {
        digest::feed_text(&mut h, bytes);
    }
    let mut out = text::owned("len:");
    out.append(text::pad_left(text::hex_of(h.finish()).as_str(), 8, '0').as_str());
    out
}

// ---------------------------------------------------------------------------
// Todos
// ---------------------------------------------------------------------------

/// The id of a todo.
#[derive(Debug, PartialEq, Eq)]
pub struct TodoId(pub String);

impl Clone for TodoId {
    fn clone(&self) -> (r: Self)
        ensures
            r == *self,
    {
        TodoId(self.0.clone())
    }
}

impl TodoId {
    /// The id that a slug and a position make.
    pub fn from_slug(slug: &str, index: usize) -> (r: Self)
        requires
            index < usize::MAX,
        ensures
            r.0@ == planner::slug(slug@, index as nat),
    {
        TodoId(planner::slugify(slug, index))
    }

    /// The id as text.
    pub fn as_text(&self) -> (r: String)
        ensures
            r == self.0,
    {
        self.0.clone()
    }
}

/// Where a todo stands.
#[derive(Debug, PartialEq, Eq)]
pub enum TodoStatus {
    Pending,
    Done,
    Failed { reason: String },
    Skipped { reason: String },
}

impl Clone for TodoStatus {
    fn clone(&self) -> (r: Self)
        ensures
            r == *self,
    {
        match self {
            TodoStatus::Pending => TodoStatus::Pending,
            TodoStatus::Done => TodoStatus::Done,
            TodoStatus::Failed { reason } => TodoStatus::Failed { reason: reason.clone() },
            TodoStatus::Skipped { reason } => TodoStatus::Skipped { reason: reason.clone() },
        }
    }
}

impl TodoStatus {
    pub open spec fn spec_name(self) -> Seq<char> {
        match self {
            TodoStatus::Pending => "pending"@,
            TodoStatus::Done => "done"@,
            TodoStatus::Failed { .. } => "failed"@,
            TodoStatus::Skipped { .. } => "skipped"@,
        }
    }

    /// The reason of a failed or skipped todo, empty otherwise.
    pub open spec fn spec_reason(self) -> Seq<char> {
        match self {
            TodoStatus::Failed { reason } => reason@,
            TodoStatus::Skipped { reason } => reason@,
            _ => Seq::empty(),
        }
    }

    pub fn as_str(&self) -> (r: &'static str)
        ensures
            r@ == self.spec_name(),
    {
        match self {
            TodoStatus::Pending => "pending",
            TodoStatus::Done => "done",
            TodoStatus::Failed { .. } => "failed",
            TodoStatus::Skipped { .. } => "skipped",
        }
    }

    /// The status in the `Debug` format.
    pub open spec fn spec_debug(self) -> Seq<char> {
        match self {
            TodoStatus::Pending => "Pending"@,
            TodoStatus::Done => "Done"@,
            TodoStatus::Failed { reason } => "Failed { reason: "@ + text::quoted(reason@) + " }"@,
            TodoStatus::Skipped { reason } => "Skipped { reason: "@ + text::quoted(reason@) + " }"@,
        }
    }

    /// The status in the `Debug` format.
    pub fn debug_text(&self) -> (r: String)
        ensures
            r@ == self.spec_debug(),
    {
        match self {
            TodoStatus::Pending => text::owned("Pending"),
            TodoStatus::Done => text::owned("Done"),
            TodoStatus::Failed { reason } => {
                let mut out = text::owned("Failed { reason: ");
                out.append(text::quote(reason.as_str()).as_str());
                out.append(" }");
                out
            },
            TodoStatus::Skipped { reason } => {
                let mut out = text::owned("Skipped { reason: ");
                out.append(text::quote(reason.as_str()).as_str());
                out.append(" }");
                out
            },
        }
    }

    /// The reason of a failed or skipped todo, empty otherwise.
    pub fn reason_text(&self) -> (r: String)
        ensures
            r@ == self.spec_reason(),
    {
        match self {
            TodoStatus::Failed { reason } => reason.clone(),
            TodoStatus::Skipped { reason } => reason.clone(),
            _ => String::new(),
        }
    }
}

/// What must be seen for a todo to count as done.
#[derive(Debug, Clone, Copy, PartialEq, Eq, Structural)]
pub enum AcceptanceKind {
    /// The browser stands at a url.
    UrlAt,
    /// An element is on the page.
    ElementPresent,
    /// Any fresh snapshot will do.
    AnySnapshot,
}

#[derive(Debug, PartialEq, Eq)]
pub struct AcceptanceCriterion {
    pub kind: AcceptanceKind,
    /// The words that the criterion was read from.
    pub detail: String,
}

impl AcceptanceCriterion {
    pub fn new(kind: AcceptanceKind, detail: &str) -> (r: Self)
        ensures
            r.kind == kind,
            r.detail@ == detail@,
    {
        AcceptanceCriterion { kind, detail: text::owned(detail) }
    }
}

impl Clone for AcceptanceCriterion {
    fn clone(&self) -> (r: Self)
        ensures
            r == *self,
    {
        AcceptanceCriterion { kind: self.kind, detail: self.detail.clone() }
    }
}

/// How long a worker may take over one todo.
#[derive(Debug, Clone, Copy, PartialEq, Eq, Structural)]
pub struct TodoBudget {
    pub max_steps: u32,
    pub max_seconds: u64,
}

impl Default for TodoBudget {
    fn default() -> (r: Self)
        ensures
            r == (TodoBudget { max_steps: 10, max_seconds: 75 }),
    {
        TodoBudget { max_steps: 10, max_seconds: 75 }
    }
}

/// The evidence on which a todo was accepted.
#[derive(Debug, PartialEq, Eq)]
pub struct Evidence {
    pub worker_signature: String,
    pub planner_signature: String,
    pub iteration: usize,
    pub verified_at_secs: u64,
}

impl Clone for Evidence {
    fn clone(&self) -> (r: Self)
        ensures
            r == *self,
    {
        Evidence {
            worker_signature: self.worker_signature.clone(),
            planner_signature: self.planner_signature.clone(),
            iteration: self.iteration,
            verified_at_secs: self.verified_at_secs,
        }
    }
}

/// Evidence that was turned down, and why.
#[derive(Debug, PartialEq, Eq)]
pub struct EvidenceMismatch {
    pub worker_signature: String,
    pub planner_signature: String,
    pub reason: String,
}

impl Clone for EvidenceMismatch {
    fn clone(&self) -> (r: Self)
        ensures
            r == *self,
    {
        EvidenceMismatch {
            worker_signature: self.worker_signature.clone(),
            planner_signature: self.planner_signature.clone(),
            reason: self.reason.clone(),
        }
    }
}

/// What came of a worker's report.
#[derive(Debug, PartialEq, Eq)]
pub enum MarkTodoOutcome {
    MarkedDone { evidence: Evidence },
    StaleEvidence(EvidenceMismatch),
    AlreadyTerminal { current: TodoStatus },
}

impl Clone for MarkTodoOutcome {
    fn clone(&self) -> (r: Self)
        ensures
            r == *self,
    {
        match self {
            MarkTodoOutcome::MarkedDone { evidence } => MarkTodoOutcome::MarkedDone {
                evidence: evidence.clone(),
            },
            MarkTodoOutcome::StaleEvidence(m) => MarkTodoOutcome::StaleEvidence(m.clone()),
            MarkTodoOutcome::AlreadyTerminal { current } => MarkTodoOutcome::AlreadyTerminal {
                current: current.clone(),
            },
        }
    }
}

impl Evidence {
    /// The evidence in the `Debug` format.
    pub open spec fn spec_debug(self) -> Seq<char> {
        "Evidence { worker_signature: "@ + text::quoted(self.worker_signature@)
            + ", planner_signature: "@ + text::quoted(self.planner_signature@) + ", iteration: "@
            + text::decimal(self.iteration as nat) + ", verified_at_secs: "@ + text::decimal(
            self.verified_at_secs as nat,
        ) + " }"@
    }

    fn debug_text(&self) -> (r: String)
        ensures
            r@ == self.spec_debug(),
    {
        let mut out = text::owned("Evidence { worker_signature: ");
        out.append(text::quote(self.worker_signature.as_str()).as_str());
        out.append(", planner_signature: ");
        out.append(text::quote(self.planner_signature.as_str()).as_str());
        out.append(", iteration: ");
        out.append(text::decimal_of(self.iteration as u64).as_str());
        out.append(", verified_at_secs: ");
        out.append(text::decimal_of(self.verified_at_secs).as_str());
        out.append(" }");
        out
    }
}

impl MarkTodoOutcome {
    /// The outcome in the `Debug` format.
    pub open spec fn spec_debug(self) -> Seq<char> {
        match self {
            MarkTodoOutcome::MarkedDone { evidence } => "MarkedDone { evidence: "@
                + evidence.spec_debug() + " }"@,
            MarkTodoOutcome::StaleEvidence(m) => "StaleEvidence(EvidenceMismatch { worker_signature: "@
                + text::quoted(m.worker_signature@) + ", planner_signature: "@ + text::quoted(
                m.planner_signature@,
            ) + ", reason: "@ + text::quoted(m.reason@) + " })"@,
            MarkTodoOutcome::AlreadyTerminal { current } => "AlreadyTerminal { current: "@
                + current.spec_debug() + " }"@,
        }
    }

    /// The outcome in the `Debug` format.
    pub fn debug_text(&self) -> (r: String)
        ensures
            r@ == self.spec_debug(),
    {
        match self {
            MarkTodoOutcome::MarkedDone { evidence } => {
                let mut out = text::owned("MarkedDone { evidence: ");
                out.append(evidence.debug_text().as_str());
                out.append(" }");
                out
            },
            MarkTodoOutcome::StaleEvidence(m) => {
                let mut out = text::owned("StaleEvidence(EvidenceMismatch { worker_signature: ");
                out.append(text::quote(m.worker_signature.as_str()).as_str());
                out.append(", planner_signature: ");
                out.append(text::quote(m.planner_signature.as_str()).as_str());
                out.append(", reason: ");
                out.append(text::quote(m.reason.as_str()).as_str());
                out.append(" })");
                out
            },
            MarkTodoOutcome::AlreadyTerminal { current } => {
                let mut out = text::owned("AlreadyTerminal { current: ");
                out.append(current.debug_text().as_str());
                out.append(" }");
                out
            },
        }
    }
}

/// One unit of work.
#[derive(Debug, PartialEq, Eq)]
pub struct Todo {
    pub id: TodoId,
    pub intent: String,
    pub acceptance: Option<AcceptanceCriterion>,
    pub depends_on: Vec<TodoId>,
    pub status: TodoStatus,
    pub evidence: Option<Evidence>,
    pub attempts: u32,
    pub budget: TodoBudget,
    /// The newest iteration whose evidence was looked at.
    pub last_evidence_iteration: Option<usize>,
}

/// How a worker's report is judged.
pub enum Verdict {
    /// The todo had been resolved before.
    Terminal,
    /// The evidence is no newer than what was looked at before.
    StaleIteration,
    /// The signatures differ.
    Mismatch,
    /// The report is accepted.
    Match,
}

/// `stale iteration 1 (last evidence at iteration 2)`
pub open spec fn stale_reason(iteration: nat, last: nat) -> Seq<char> {
    "stale iteration "@ + text::decimal(iteration) + " (last evidence at iteration "@
        + text::decimal(last) + ")"@
}

/// `snapshot signature mismatch: worker=.. planner=..`
pub open spec fn mismatch_reason(worker: Seq<char>, planner: Seq<char>) -> Seq<char> {
    "snapshot signature mismatch: worker="@ + worker + " planner="@ + planner
}

impl Todo {
    /// The same todo, field by field.
    pub open spec fn same(self, other: Todo) -> bool {
        &&& self.same_task(other)
        &&& self.status == other.status
        &&& self.evidence == other.evidence
        &&& self.attempts == other.attempts
        &&& self.last_evidence_iteration == other.last_evidence_iteration
    }

    /// The fields that no report changes.
    pub open spec fn same_task(self, other: Todo) -> bool {
        &&& self.id == other.id
        &&& self.intent == other.intent
        &&& self.acceptance == other.acceptance
        &&& self.depends_on@ == other.depends_on@
        &&& self.budget == other.budget
    }

    pub open spec fn verdict(
        self,
        worker: Seq<char>,
        page: Seq<char>,
        iteration: usize,
    ) -> Verdict {
        if !(self.status is Pending) {
            Verdict::Terminal
        } else if self.last_evidence_iteration is Some && iteration
            <= self.last_evidence_iteration->0 {
            Verdict::StaleIteration
        } else if worker != signature_text(page) {
            Verdict::Mismatch
        } else {
            Verdict::Match
        }
    }

    /// Why a report with the given verdict is turned down.
    pub open spec fn rejection_reason(
        self,
        worker: Seq<char>,
        page: Seq<char>,
        iteration: usize,
    ) -> Seq<char> {
        if self.verdict(worker, page, iteration) is StaleIteration {
            stale_reason(iteration as nat, self.last_evidence_iteration->0 as nat)
        } else {
            mismatch_reason(worker, signature_text(page))
        }
    }

    /// The status after a report was turned down at the given attempt: failed with
    /// the reason once the attempts are used up, pending before.
    pub open spec fn rejected_status(
        status: TodoStatus,
        attempts: u32,
        max_attempts: u32,
        reason: Seq<char>,
    ) -> bool {
        if attempts >= max_attempts {
            status is Failed && status->Failed_reason@ == reason
        } else {
            status is Pending
        }
    }

    pub fn new(id: TodoId, intent: &str, acceptance: Option<AcceptanceCriterion>) -> (r: Self)
        ensures
            r.id == id,
            r.intent@ == intent@,
            r.acceptance == acceptance,
            r.depends_on@ == Seq::<TodoId>::empty(),
            r.status is Pending,
            r.evidence is None,
            r.attempts == 0,
            r.budget == (TodoBudget { max_steps: 10, max_seconds: 75 }),
            r.last_evidence_iteration is None,
    {
        Todo {
            id,
            intent: text::owned(intent),
            acceptance,
            depends_on: Vec::new(),
            status: TodoStatus::Pending,
            evidence: None,
            attempts: 0,
            budget: TodoBudget::default(),
            last_evidence_iteration: None,
        }
    }

    /// A copy of the todo.
    pub fn copy(&self) -> (r: Self)
        ensures
            r.same(*self),
    {
        let mut depends_on: Vec<TodoId> = Vec::new();
        let mut i: usize = 0;
        while i < self.depends_on.len()
            invariant
                i <= self.depends_on@.len(),
                depends_on@ == self.depends_on@.take(i as int),
            decreases self.depends_on@.len() - i,
        {
            depends_on.push(self.depends_on[i].clone());
            i += 1;
            assert(self.depends_on@.take(i as int) == self.depends_on@.take(i - 1).push(
                self.depends_on@[i - 1],
            ));
        }
        assert(self.depends_on@.take(self.depends_on@.len() as int) == self.depends_on@);
        Todo {
            id: self.id.clone(),
            intent: self.intent.clone(),
            acceptance: match &self.acceptance {
                Some(a) => Some(a.clone()),
                None => None,
            },
            depends_on,
            status: self.status.clone(),
            evidence: match &self.evidence {
                Some(e) => Some(e.clone()),
                None => None,
            },
            attempts: self.attempts,
            budget: self.budget,
            last_evidence_iteration: self.last_evidence_iteration,
        }
    }

    fn reject(
        &mut self,
        worker_signature: &str,
        planner_signature: String,
        reason: String,
        max_attempts: u32,
    ) -> (r: EvidenceMismatch)
        requires
            old(self).status is Pending,
        ensures
            r.worker_signature@ == worker_signature@,
            r.planner_signature == planner_signature,
            r.reason == reason,
            final(self).same_task(*old(self)),
            final(self).evidence == old(self).evidence,
            final(self).attempts == old(self).attempts,
            final(self).last_evidence_iteration == old(self).last_evidence_iteration,
            Todo::rejected_status(
                final(self).status,
                old(self).attempts,
                max_attempts,
                reason@,
            ),
    {
        if self.attempts >= max_attempts {
            self.status = TodoStatus::Failed { reason: reason.clone() };
        }
        EvidenceMismatch {
            worker_signature: text::owned(worker_signature),
            planner_signature,
            reason,
        }
    }

    /// What a report that the todo is done comes to, and what it leaves.
    pub open spec fn judges(
        self,
        worker: Seq<char>,
        page: Seq<char>,
        iteration: usize,
        now_secs: u64,
        max_attempts: u32,
        r: MarkTodoOutcome,
        after: Todo,
    ) -> bool {
        &&& after.same_task(self)
        &&& match self.verdict(worker, page, iteration) {
            Verdict::Terminal => {
                &&& r == (MarkTodoOutcome::AlreadyTerminal { current: self.status })
                &&& after.same(self)
            },
            Verdict::StaleIteration => {
                &&& after.attempts == self.attempts + 1
                &&& after.evidence == self.evidence
                &&& after.last_evidence_iteration == self.last_evidence_iteration
            },
            Verdict::Mismatch => {
                &&& after.attempts == self.attempts + 1
                &&& after.evidence == self.evidence
                &&& after.last_evidence_iteration == Some(iteration)
            },
            Verdict::Match => {
                &&& after.attempts == self.attempts + 1
                &&& after.last_evidence_iteration == Some(iteration)
                &&& after.status is Done
                &&& after.evidence is Some
                &&& r == (MarkTodoOutcome::MarkedDone { evidence: after.evidence->0 })
                &&& after.evidence->0.worker_signature@ == worker
                &&& after.evidence->0.planner_signature@ == signature_text(page)
                &&& after.evidence->0.iteration == iteration
                &&& after.evidence->0.verified_at_secs == now_secs
            },
        }
        &&& (self.verdict(worker, page, iteration) is StaleIteration || self.verdict(worker, page, iteration) is Mismatch) ==> {
            let reason = self.rejection_reason(worker, page, iteration);
            &&& r is StaleEvidence
            &&& r->StaleEvidence_0.worker_signature@ == worker
            &&& r->StaleEvidence_0.planner_signature@ == signature_text(page)
            &&& r->StaleEvidence_0.reason@ == reason
            &&& Todo::rejected_status(
                after.status,
                after.attempts,
                max_attempts,
                reason,
            )
        }
    }

    /// Judges a worker's report that the todo is done. A resolved todo stays as it
    /// is. Otherwise the report uses up one attempt; evidence that is not newer
    /// than the last, or whose signature is not that of the reported page, is
    /// turned down, and the todo fails once `max_attempts` are used up.
    pub fn mark_done(
        &mut self,
        worker_signature: &str,
        obs_text: &str,
        iteration: usize,
        now_secs: u64,
        max_attempts: u32,
    ) -> (r: MarkTodoOutcome)
        requires
            signable(obs_text@),
            old(self).attempts < u32::MAX,
        ensures
            old(self).judges(
                worker_signature@,
                obs_text@,
                iteration,
                now_secs,
                max_attempts,
                r,
                *final(self),
            ),
    {
        match self.status {
            TodoStatus::Pending => {},
            _ => return MarkTodoOutcome::AlreadyTerminal { current: self.status.clone() },
        }
        self.attempts = self.attempts + 1;
        let expected = planner_signature(obs_text);
        if let Some(last) = self.last_evidence_iteration {
            if iteration <= last {
                let mut reason = text::owned("stale iteration ");
                reason.append(text::decimal_of(iteration as u64).as_str());
                reason.append(" (last evidence at iteration ");
                reason.append(text::decimal_of(last as u64).as_str());
                reason.append(")");
                return MarkTodoOutcome::StaleEvidence(
                    self.reject(worker_signature, expected, reason, max_attempts),
                );
            }
        }
        self.last_evidence_iteration = Some(iteration);
        if !text::same(worker_signature, expected.as_str()) {
            let mut reason = text::owned("snapshot signature mismatch: worker=");
            reason.append(worker_signature);
            reason.append(" planner=");
            reason.append(expected.as_str());
            return MarkTodoOutcome::StaleEvidence(
                self.reject(worker_signature, expected, reason, max_attempts),
            );
        }
        let evidence = Evidence {
            worker_signature: text::owned(worker_signature),
            planner_signature: expected,
            iteration,
            verified_at_secs: now_secs,
        };
        self.status = TodoStatus::Done;
        self.evidence = Some(evidence.clone());
        MarkTodoOutcome::MarkedDone { evidence }
    }
}

// ---------------------------------------------------------------------------
// Laws
// ---------------------------------------------------------------------------

/// The first `n` bytes, or all of them where there are fewer.
pub open spec fn first_bytes(bytes: Seq<u8>, n: int) -> Seq<u8> {
    if bytes.len() <= n {
        bytes
    } else {
        bytes.subrange(0, n)
    }
}

/// The last `n` bytes, or all of them where there are fewer.
pub open spec fn last_bytes(bytes: Seq<u8>, n: int) -> Seq<u8> {
    if bytes.len() <= n {
        bytes
    } else {
        bytes.subrange(bytes.len() - n, bytes.len() as int)
    }
}

/// What is hashed of a page fixes its length and both of its edges: two pages that
/// differ in their length, within their first 200 bytes or within their last 200
/// bytes are not hashed alike.
pub proof fn law_a_signature_covers_both_edges(a: Seq<char>, b: Seq<char>)
    requires
        vstd::utf8::encode_utf8(a).len() <= u64::MAX,
        vstd::utf8::encode_utf8(b).len() <= u64::MAX,
        page_chunks(a) == page_chunks(b),
    ensures
        vstd::utf8::encode_utf8(a).len() == vstd::utf8::encode_utf8(b).len(),
        first_bytes(vstd::utf8::encode_utf8(a), 200) == first_bytes(
            vstd::utf8::encode_utf8(b),
            200,
        ),
        last_bytes(vstd::utf8::encode_utf8(a), 200) == last_bytes(vstd::utf8::encode_utf8(b), 200),
{
    let x = vstd::utf8::encode_utf8(a);
    let y = vstd::utf8::encode_utf8(b);
    let ca = page_chunks(a);
    let cb = page_chunks(b);
    vstd::bytes::lemma_auto_spec_u64_to_from_le_bytes();
    assert(ca[0] == digest::size_chunk(x.len()));
    assert(cb[0] == digest::size_chunk(y.len()));
    assert(vstd::bytes::spec_u64_from_le_bytes(ca[0]) == x.len() as u64);
    assert(vstd::bytes::spec_u64_from_le_bytes(cb[0]) == y.len() as u64);
    assert(x.len() == y.len());
    assert(ca[1] == first_bytes(x, 200));
    assert(cb[1] == first_bytes(y, 200));
    if x.len() > 200 {
        assert(ca[3] == last_bytes(x, 200));
        assert(cb[3] == last_bytes(y, 200));
    }
}

/// A page that is not longer than both edges is hashed whole: two such pages that
/// are hashed alike are one.
pub proof fn law_short_pages_are_signed_whole(a: Seq<char>, b: Seq<char>)
    requires
        vstd::utf8::encode_utf8(a).len() <= 400,
        page_chunks(a) == page_chunks(b),
        vstd::utf8::encode_utf8(b).len() <= u64::MAX,
    ensures
        vstd::utf8::encode_utf8(a) == vstd::utf8::encode_utf8(b),
{
    let x = vstd::utf8::encode_utf8(a);
    let y = vstd::utf8::encode_utf8(b);
    law_a_signature_covers_both_edges(a, b);
    if x.len() > 200 {
        assert forall|i: int| 0 <= i < x.len() implies x[i] == y[i] by {
            if i < 200 {
                assert(first_bytes(x, 200)[i] == x[i] && first_bytes(y, 200)[i] == y[i]);
            } else {
                let k = i - (x.len() - 200);
                assert(last_bytes(x, 200)[k] == x[i] && last_bytes(y, 200)[k] == y[i]);
            }
        }
        assert(x == y);
    }
}

/// A signature shows the whole digest: pages with one signature have one digest.
pub proof fn law_a_signature_shows_the_whole_digest(a: Seq<char>, b: Seq<char>)
    requires
        signature_text(a) == signature_text(b),
    ensures
        DefaultHasher::spec_finish(page_chunks(a)) == DefaultHasher::spec_finish(page_chunks(b)),
{
    reveal_strlit("len:");
    let da = digest::digest(page_chunks(a)) as nat;
    let db = digest::digest(page_chunks(b)) as nat;
    let pa = text::padded_left(text::digits(da, 16), 8, '0');
    let pb = text::padded_left(text::digits(db, 16), 8, '0');
    let sa = "len:"@ + pa;
    let sb = "len:"@ + pb;
    assert(sa.subrange(4, sa.len() as int) == pa);
    assert(sb.subrange(4, sb.len() as int) == pb);
    text::lemma_padded_numerals_differ(da, db, 16, 8);
}

/// A signature is `len:` and at least eight hexadecimal digits that stand for the
/// digest.
pub proof fn law_signatures_are_hexadecimal(page: Seq<char>)
    ensures
        "len:"@.is_prefix_of(signature_text(page)),
        signature_text(page).len() >= 12,
        forall|i: int|
            4 <= i < signature_text(page).len() ==> '0' <= (#[trigger] signature_text(page)[i])
                <= '9' || 'a' <= signature_text(page)[i] <= 'f',
        text::numeral_value(signature_text(page).skip(4), 16) == DefaultHasher::spec_finish(
            page_chunks(page),
        ),
{
    reveal_strlit("len:");
    let d = digest::digest(page_chunks(page)) as nat;
    let hex = text::digits(d, 16);
    let shown = text::padded_left(hex, 8, '0');
    let s = signature_text(page);
    text::law_numerals_stand_for_their_number(d, 16);
    text::law_padding_on_the_left(hex, 8, '0');
    assert(s.subrange(0, 4) == "len:"@);
    assert(s.skip(4) == shown);
    if hex.len() < 8 {
        text::lemma_leading_zeros(hex, (8 - hex.len()) as nat, 16);
    }
    assert forall|i: int| 4 <= i < s.len() implies '0' <= (#[trigger] s[i]) <= '9' || 'a' <= s[i]
        <= 'f' by {
        assert(s[i] == shown[i - 4]);
        let k = i - 4 - (shown.len() - hex.len());
        if k >= 0 {
            assert(shown.subrange(shown.len() - hex.len(), shown.len() as int)[k] == hex[k]);
        }
    }
}

/// A report is accepted exactly where the todo is open, the evidence is newer than
/// any that was looked at before, and the worker names the signature of the very
/// page that it reports.
pub proof fn law_only_fresh_matching_evidence_counts(
    t: Todo,
    worker: Seq<char>,
    page: Seq<char>,
    iteration: usize,
)
    ensures
        t.verdict(worker, page, iteration) is Match ==> {
            &&& t.status is Pending
            &&& t.last_evidence_iteration matches Some(last) ==> last < iteration
            &&& worker == signature_text(page)
        },
        t.status is Pending && t.last_evidence_iteration is None ==> (t.verdict(
            signature_text(page),
            page,
            iteration,
        ) is Match),
        t.status is Pending && t.last_evidence_iteration is Some && t.last_evidence_iteration->0
            < iteration ==> (t.verdict(signature_text(page), page, iteration) is Match),
        t.status !is Pending ==> t.verdict(worker, page, iteration) is Terminal,
{
}

/// Evidence of one page does not pass for another: where the edges of two pages
/// are not hashed alike and their digests differ, the signature of the one is
/// turned down for the other.
pub proof fn law_the_signature_of_another_page_is_turned_down(
    t: Todo,
    seen: Seq<char>,
    reported: Seq<char>,
    iteration: usize,
)
    requires
        DefaultHasher::spec_finish(page_chunks(seen)) != DefaultHasher::spec_finish(
            page_chunks(reported),
        ),
    ensures
        t.verdict(signature_text(seen), reported, iteration) !is Match,
{
    if signature_text(seen) == signature_text(reported) {
        law_a_signature_shows_the_whole_digest(seen, reported);
    }
}

/// Why evidence was turned down is told with what it was judged by: the two
/// signatures, or the two iterations.
pub proof fn law_rejections_name_what_they_were_judged_by(
    worker: Seq<char>,
    planner: Seq<char>,
    iteration: nat,
    last: nat,
)
    ensures
        text::occurs(mismatch_reason(worker, planner), "worker="@ + worker),
        ("planner="@ + planner).is_suffix_of(mismatch_reason(worker, planner)),
        text::occurs(
            stale_reason(iteration, last),
            "stale iteration "@ + text::decimal(iteration) + " "@,
        ),
        text::occurs(stale_reason(iteration, last), "iteration "@ + text::decimal(last) + ")"@),
{
    reveal_strlit("snapshot signature mismatch: worker=");
    reveal_strlit("worker=");
    reveal_strlit(" planner=");
    reveal_strlit("planner=");
    reveal_strlit("stale iteration ");
    reveal_strlit(" (last evidence at iteration ");
    reveal_strlit("iteration ");
    reveal_strlit(" ");
    reveal_strlit(")");
    let m = mismatch_reason(worker, planner);
    let a = "worker="@ + worker;
    let b = "planner="@ + planner;
    let at = "snapshot signature mismatch: worker="@.len() - "worker="@.len();
    assert(m.subrange(at, at + a.len()) == a);
    assert(text::occurs_at(m, a, at));
    assert(m.subrange(m.len() - b.len(), m.len() as int) == b);
    let r = stale_reason(iteration, last);
    let c = "stale iteration "@ + text::decimal(iteration) + " "@;
    let d = "iteration "@ + text::decimal(last) + ")"@;
    assert(r.subrange(0, c.len() as int) == c);
    assert(text::occurs_at(r, c, 0));
    assert(r.subrange(r.len() - d.len(), r.len() as int) == d);
    assert(text::occurs_at(r, d, r.len() - d.len()));
}

/// Each status has its own name, and a reason is kept word for word.
pub proof fn law_statuses_have_names_of_their_own(s: TodoStatus)
    ensures
        s.spec_name() == "pending"@ <==> s is Pending,
        s.spec_name() == "done"@ <==> s is Done,
        s.spec_name() == "failed"@ <==> s is Failed,
        s.spec_name() == "skipped"@ <==> s is Skipped,
        s is Failed ==> s.spec_reason() == s->Failed_reason@,
        s is Skipped ==> s.spec_reason() == s->Skipped_reason@,
        s is Pending || s is Done ==> s.spec_reason().len() == 0,
{
    reveal_strlit("pending");
    reveal_strlit("done");
    reveal_strlit("failed");
    reveal_strlit("skipped");
    assert("pending"@[0] == 'p' && "done"@[0] == 'd' && "failed"@[0] == 'f' && "skipped"@[0]
        == 's');
}

/// A copy of a todo is the todo, and no report changes what it is about, what it is
/// tested by, what it waits for or what it may use.
pub proof fn law_todos_stay_what_they_are_about(a: Todo, b: Todo)
    ensures
        a.same_task(b) ==> {
            &&& a.id == b.id
            &&& a.intent == b.intent
            &&& a.acceptance == b.acceptance
            &&& a.depends_on@ == b.depends_on@
            &&& a.budget == b.budget
        },
        a.same(b) ==> {
            &&& a.same_task(b)
            &&& a.status == b.status
            &&& a.evidence == b.evidence
            &&& a.attempts == b.attempts
            &&& a.last_evidence_iteration == b.last_evidence_iteration
        },
{
}

/// Why a report is turned down is told by what was wrong with it: a page that was looked
/// at before by both iterations, and any other page by both signatures.
pub proof fn law_reasons_fit_the_verdict(
    t: Todo,
    worker: Seq<char>,
    page: Seq<char>,
    iteration: usize,
)
    requires
        t.status is Pending,
    ensures
        t.last_evidence_iteration matches Some(last) ==> (iteration <= last
            ==> t.rejection_reason(worker, page, iteration) == stale_reason(
            iteration as nat,
            last as nat,
        )),
        (t.last_evidence_iteration matches Some(last) ==> iteration > last) ==> t.rejection_reason(
            worker,
            page,
            iteration,
        ) == mismatch_reason(worker, signature_text(page)),
{
}

/// A report uses up an attempt whatever comes of it. It is taken where it is fresh and
/// signed right, and kept with both signatures; where it is not, the todo stays open
/// until the attempts are used up, and fails with the reason then. A todo that has been
/// resolved is left alone.
pub proof fn law_reports_resolve_or_use_up_an_attempt(
    t: Todo,
    worker: Seq<char>,
    page: Seq<char>,
    iteration: usize,
    now: u64,
    max_attempts: u32,
    r: MarkTodoOutcome,
    after: Todo,
)
    requires
        t.attempts < u32::MAX,
        t.judges(worker, page, iteration, now, max_attempts, r, after),
    ensures
        after.same_task(t),
        t.status !is Pending ==> after.same(t) && r is AlreadyTerminal,
        t.status is Pending ==> {
            let fresh = t.last_evidence_iteration matches Some(last) ==> iteration > last;
            let taken = fresh && worker == signature_text(page);
            &&& after.attempts == t.attempts + 1
            &&& after.status is Done <==> taken
            &&& r is MarkedDone <==> taken
            &&& r is StaleEvidence <==> !taken
            &&& taken ==> {
                &&& after.evidence is Some
                &&& after.evidence->0.worker_signature@ == worker
                &&& after.evidence->0.planner_signature@ == worker
                &&& after.evidence->0.iteration == iteration
                &&& after.evidence->0.verified_at_secs == now
            }
            &&& !taken ==> after.evidence == t.evidence
            &&& !taken && t.attempts + 1 >= max_attempts ==> after.status is Failed
                && after.status->Failed_reason@ == r->StaleEvidence_0.reason@
            &&& !taken && t.attempts + 1 < max_attempts ==> after.status is Pending
            &&& !taken ==> r->StaleEvidence_0.worker_signature@ == worker
                && r->StaleEvidence_0.planner_signature@ == signature_text(page)
            &&& fresh ==> after.last_evidence_iteration == Some(iteration)
            &&& !fresh ==> after.last_evidence_iteration == t.last_evidence_iteration
        },
{
}

/// A page of at most 200 bytes is hashed once, and a longer one by its two edges.
pub proof fn law_only_long_pages_are_cut(page: Seq<char>)
    ensures
        vstd::utf8::encode_utf8(page).len() <= 200 ==> page_chunks(page).len() == 3,
        vstd::utf8::encode_utf8(page).len() > 200 ==> page_chunks(page).len() == 5,
{
}

} // verus!
