//! Task completeness: the checklist of subtasks behind the finish gate.
//!
//! The model declares its subtasks and marks each of them; the tracker owns the
//! answer to what was declared and what was verified. A subtask becomes `Done`
//! only with the signature of the most recent snapshot, and only if that
//! snapshot was taken since the previous subtask was marked done. `finish()`
//! passes only while no declared subtask is pending.

use vstd::prelude::*;
use crate::clock;
use crate::text;

verus! {

/// Where a subtask stands.
#[derive(Debug, PartialEq, Eq)]
pub enum SubTaskStatus {
    /// On the list, not attempted or not verified yet.
    Pending,
    /// Attempted, and verified by a fresh snapshot.
    Done,
    /// Left out on purpose, with the model's own justification.
    Skipped { reason: String },
    /// Attempted without a verified outcome.
    Failed { reason: String },
    /// Its step or time budget ran out. Terminal for `finish()`.
    Exhausted { reason: String },
}

/// The variants of `SubTaskStatus` without their reasons.
#[derive(Debug, Clone, Copy, PartialEq, Eq, Structural)]
pub enum StatusKind {
    Pending,
    Done,
    Skipped,
    Failed,
    Exhausted,
}

impl Clone for SubTaskStatus {
    fn clone(&self) -> (r: Self)
        ensures
            r == *self,
    {
        match self {
            SubTaskStatus::Pending => SubTaskStatus::Pending,
            SubTaskStatus::Done => SubTaskStatus::Done,
            SubTaskStatus::Skipped { reason } => SubTaskStatus::Skipped { reason: reason.clone() },
            SubTaskStatus::Failed { reason } => SubTaskStatus::Failed { reason: reason.clone() },
            SubTaskStatus::Exhausted { reason } => SubTaskStatus::Exhausted {
                reason: reason.clone(),
            },
        }
    }
}

impl SubTaskStatus {
    pub open spec fn spec_kind(self) -> StatusKind {
        match self {
            SubTaskStatus::Pending => StatusKind::Pending,
            SubTaskStatus::Done => StatusKind::Done,
            SubTaskStatus::Skipped { .. } => StatusKind::Skipped,
            SubTaskStatus::Failed { .. } => StatusKind::Failed,
            SubTaskStatus::Exhausted { .. } => StatusKind::Exhausted,
        }
    }

    /// Every status but `Pending` is terminal.
    pub open spec fn terminal(self) -> bool {
        self !is Pending
    }

    /// The name under which a status appears in summaries.
    pub open spec fn spec_name(self) -> Seq<char> {
        match self {
            SubTaskStatus::Pending => "pending"@,
            SubTaskStatus::Done => "done"@,
            SubTaskStatus::Skipped { .. } => "skipped"@,
            SubTaskStatus::Failed { .. } => "failed"@,
            SubTaskStatus::Exhausted { .. } => "exhausted"@,
        }
    }

    pub open spec fn spec_reason(self) -> Option<Seq<char>> {
        match self {
            SubTaskStatus::Pending => None,
            SubTaskStatus::Done => None,
            SubTaskStatus::Skipped { reason } => Some(reason@),
            SubTaskStatus::Failed { reason } => Some(reason@),
            SubTaskStatus::Exhausted { reason } => Some(reason@),
        }
    }

    pub fn kind(&self) -> (r: StatusKind)
        ensures
            r == self.spec_kind(),
    {
        match self {
            SubTaskStatus::Pending => StatusKind::Pending,
            SubTaskStatus::Done => StatusKind::Done,
            SubTaskStatus::Skipped { .. } => StatusKind::Skipped,
            SubTaskStatus::Failed { .. } => StatusKind::Failed,
            SubTaskStatus::Exhausted { .. } => StatusKind::Exhausted,
        }
    }

    pub fn as_str(&self) -> (r: &'static str)
        ensures
            r@ == self.spec_name(),
    {
        match self {
            SubTaskStatus::Pending => "pending",
            SubTaskStatus::Done => "done",
            SubTaskStatus::Skipped { .. } => "skipped",
            SubTaskStatus::Failed { .. } => "failed",
            SubTaskStatus::Exhausted { .. } => "exhausted",
        }
    }

    pub fn reason(&self) -> (r: Option<&str>)
        ensures
            match r {
                Some(t) => self.spec_reason() == Some(t@),
                None => self.spec_reason() is None,
            },
    {
        match self {
            SubTaskStatus::Pending => None,
            SubTaskStatus::Done => None,
            SubTaskStatus::Skipped { reason } => Some(reason.as_str()),
            SubTaskStatus::Failed { reason } => Some(reason.as_str()),
            SubTaskStatus::Exhausted { reason } => Some(reason.as_str()),
        }
    }
}

/// One tracked subtask, identified by the id that the model supplied.
#[derive(Debug)]
pub struct SubTask {
    pub id: String,
    pub description: String,
    pub status: SubTaskStatus,
    /// Iteration of the snapshot that confirmed the subtask.
    pub evidence_iteration: Option<usize>,
    /// Signature of that snapshot.
    pub evidence_signature: Option<String>,
    /// Seconds since the epoch at which the subtask was resolved.
    pub decided_at_secs: Option<u64>,
}

impl Clone for SubTask {
    fn clone(&self) -> (r: Self)
        ensures
            r == *self,
    {
        SubTask {
            id: self.id.clone(),
            description: self.description.clone(),
            status: self.status.clone(),
            evidence_iteration: self.evidence_iteration,
            evidence_signature: text::opt_owned(&self.evidence_signature),
            decided_at_secs: self.decided_at_secs,
        }
    }
}

/// What came of marking a subtask.
#[derive(Debug, PartialEq, Eq)]
pub enum MarkOutcome {
    /// Moved to `Done` on the recorded evidence.
    MarkedDone { evidence_iteration: usize, evidence_signature: String },
    /// Moved to `Skipped` or `Failed` with the given reason.
    MarkedSkipped { reason: String },
    /// Moved to `Exhausted` with the given reason.
    MarkedExhausted { reason: String },
    /// No such id in the tracker.
    UnknownId,
    /// Evidence was rejected: no fresh snapshot since the last mark, or another
    /// signature than that of the last snapshot.
    StaleEvidence { last_snapshot_iteration: usize, current_iteration: usize },
    /// The subtask had been resolved before.
    AlreadyTerminal { current: SubTaskStatus },
}

impl Clone for MarkOutcome {
    fn clone(&self) -> (r: Self)
        ensures
            r == *self,
    {
        match self {
            MarkOutcome::MarkedDone { evidence_iteration, evidence_signature } => {
                MarkOutcome::MarkedDone {
                    evidence_iteration: *evidence_iteration,
                    evidence_signature: evidence_signature.clone(),
                }
            },
            MarkOutcome::MarkedSkipped { reason } => MarkOutcome::MarkedSkipped {
                reason: reason.clone(),
            },
            MarkOutcome::MarkedExhausted { reason } => MarkOutcome::MarkedExhausted {
                reason: reason.clone(),
            },
            MarkOutcome::UnknownId => MarkOutcome::UnknownId,
            MarkOutcome::StaleEvidence { last_snapshot_iteration, current_iteration } => {
                MarkOutcome::StaleEvidence {
                    last_snapshot_iteration: *last_snapshot_iteration,
                    current_iteration: *current_iteration,
                }
            },
            MarkOutcome::AlreadyTerminal { current } => MarkOutcome::AlreadyTerminal {
                current: current.clone(),
            },
        }
    }
}

/// One entry of a `declare_subtasks` call.
#[derive(Debug)]
pub struct DeclareItem {
    pub id: String,
    pub description: String,
}

impl Clone for DeclareItem {
    fn clone(&self) -> (r: Self)
        ensures
            r == *self,
    {
        DeclareItem { id: self.id.clone(), description: self.description.clone() }
    }
}

/// The checklist of one session.
#[derive(Debug)]
pub struct CompletenessTracker {
    pub subtasks: Vec<SubTask>,
    /// Iteration of the most recent snapshot.
    pub last_snapshot_iteration: Option<usize>,
    /// Signature of the most recent snapshot.
    pub last_snapshot_signature: Option<String>,
    /// Whether a snapshot was taken since the last subtask was marked done.
    pub snapshot_since_mark: bool,
    /// How often `finish()` was called.
    pub finish_attempts: usize,
    /// Whether a `finish()` was ever held back.
    pub gate_triggered: bool,
}

impl Default for CompletenessTracker {
    fn default() -> (r: Self)
        ensures
            r.subtasks@ == Seq::<SubTask>::empty(),
            r.last_snapshot_iteration is None,
            r.last_snapshot_signature is None,
            !r.snapshot_since_mark,
            r.finish_attempts == 0,
            !r.gate_triggered,
    {
        CompletenessTracker {
            subtasks: Vec::new(),
            last_snapshot_iteration: None,
            last_snapshot_signature: None,
            snapshot_since_mark: false,
            finish_attempts: 0,
            gate_triggered: false,
        }
    }
}

// ---------------------------------------------------------------------------
// Model
// ---------------------------------------------------------------------------

/// The first index from `i` on that holds the given id.
pub open spec fn lookup_from(s: Seq<SubTask>, id: Seq<char>, i: int) -> Option<int>
    decreases s.len() - i,
{
    if i < 0 || i >= s.len() {
        None
    } else if s[i].id@ == id {
        Some(i)
    } else {
        lookup_from(s, id, i + 1)
    }
}

/// The first subtask with the given id.
pub open spec fn lookup(s: Seq<SubTask>, id: Seq<char>) -> Option<int> {
    lookup_from(s, id, 0)
}

/// `lookup` finds the first match, and fails only where nothing matches.
pub proof fn lemma_lookup_from(s: Seq<SubTask>, id: Seq<char>, i: int)
    requires
        0 <= i,
    ensures
        match lookup_from(s, id, i) {
            Some(k) => i <= k < s.len() && s[k].id@ == id && forall|j: int|
                i <= j < k ==> (#[trigger] s[j]).id@ != id,
            None => forall|j: int| i <= j < s.len() ==> (#[trigger] s[j]).id@ != id,
        },
    decreases s.len() - i,
{
    if i < s.len() && s[i].id@ != id {
        lemma_lookup_from(s, id, i + 1);
    }
}

/// How many subtasks have a status of the given kind.
pub open spec fn count_kind(s: Seq<SubTask>, k: StatusKind) -> nat
    decreases s.len(),
{
    if s.len() == 0 {
        0
    } else {
        count_kind(s.drop_last(), k) + if s.last().status.spec_kind() == k {
            1nat
        } else {
            0nat
        }
    }
}

/// Whether no subtask is pending.
pub open spec fn all_terminal(s: Seq<SubTask>) -> bool {
    forall|i: int| 0 <= i < s.len() ==> (#[trigger] s[i]).status.terminal()
}

pub proof fn lemma_count_bound(s: Seq<SubTask>, k: StatusKind)
    ensures
        count_kind(s, k) <= s.len(),
    decreases s.len(),
{
    if s.len() > 0 {
        lemma_count_bound(s.drop_last(), k);
    }
}

/// The pending count is zero exactly when every subtask is terminal.
pub proof fn lemma_no_pending_iff_all_terminal(s: Seq<SubTask>)
    ensures
        count_kind(s, StatusKind::Pending) == 0 <==> all_terminal(s),
    decreases s.len(),
{
    if s.len() > 0 {
        let t = s.drop_last();
        lemma_no_pending_iff_all_terminal(t);
        if all_terminal(s) {
            assert forall|i: int| 0 <= i < t.len() implies (#[trigger] t[i]).status.terminal() by {
                assert(t[i] == s[i]);
            }
            assert(s.last() == s[s.len() - 1]);
        }
        if count_kind(s, StatusKind::Pending) == 0 {
            assert forall|i: int| 0 <= i < s.len() implies (#[trigger] s[i]).status.terminal() by {
                if i < t.len() {
                    assert(t[i] == s[i]);
                }
            }
        }
    }
}

/// The subtask that one declared item starts as.
pub open spec fn fresh_subtask(d: DeclareItem) -> SubTask {
    SubTask {
        id: d.id,
        description: d.description,
        status: SubTaskStatus::Pending,
        evidence_iteration: None,
        evidence_signature: None,
        decided_at_secs: None,
    }
}

/// A subtask resolved without evidence.
pub open spec fn resolved(s: SubTask, status: SubTaskStatus, now: u64) -> SubTask {
    SubTask { status: status, decided_at_secs: Some(now), ..s }
}

impl CompletenessTracker {
    /// Why a mark is refused before any evidence is looked at.
    pub open spec fn refusal(self, id: Seq<char>) -> Option<MarkOutcome> {
        match lookup(self.subtasks@, id) {
            None => Some(MarkOutcome::UnknownId),
            Some(i) => if self.subtasks@[i].status.terminal() {
                Some(MarkOutcome::AlreadyTerminal { current: self.subtasks@[i].status })
            } else {
                None
            },
        }
    }

    /// Whether `sig` is the signature of a snapshot taken since the last mark.
    pub open spec fn fresh_evidence(self, sig: Seq<char>) -> bool {
        &&& self.snapshot_since_mark
        &&& self.last_snapshot_iteration is Some
        &&& self.last_snapshot_signature is Some
        &&& self.last_snapshot_signature->0@ == sig
    }

    /// What `mark_done` answers.
    pub open spec fn mark_done_outcome(self, id: Seq<char>, sig: Seq<char>) -> MarkOutcome {
        if self.refusal(id) is Some {
            self.refusal(id)->0
        } else if self.fresh_evidence(sig) {
            MarkOutcome::MarkedDone {
                evidence_iteration: self.last_snapshot_iteration->0,
                evidence_signature: self.last_snapshot_signature->0,
            }
        } else {
            let at = match self.last_snapshot_iteration {
                Some(k) => k,
                None => 0,
            };
            MarkOutcome::StaleEvidence { last_snapshot_iteration: at, current_iteration: at }
        }
    }

    /// The subtasks after `mark_done` at the given time.
    pub open spec fn after_mark_done(self, id: Seq<char>, sig: Seq<char>, now: u64) -> Seq<
        SubTask,
    > {
        if self.mark_done_outcome(id, sig) is MarkedDone {
            let i = lookup(self.subtasks@, id)->0;
            self.subtasks@.update(
                i,
                SubTask {
                    status: SubTaskStatus::Done,
                    evidence_iteration: self.last_snapshot_iteration,
                    evidence_signature: self.last_snapshot_signature,
                    decided_at_secs: Some(now),
                    ..self.subtasks@[i]
                },
            )
        } else {
            self.subtasks@
        }
    }

    /// The subtasks after the one with the given id was resolved with `status`.
    pub open spec fn after_resolve(self, id: Seq<char>, status: SubTaskStatus, now: u64) -> Seq<
        SubTask,
    > {
        if self.refusal(id) is Some {
            self.subtasks@
        } else {
            let i = lookup(self.subtasks@, id)->0;
            self.subtasks@.update(i, resolved(self.subtasks@[i], status, now))
        }
    }

    /// Everything but the subtasks is as in `old`.
    pub open spec fn same_session(self, old: CompletenessTracker) -> bool {
        &&& self.last_snapshot_iteration == old.last_snapshot_iteration
        &&& self.last_snapshot_signature == old.last_snapshot_signature
        &&& self.finish_attempts == old.finish_attempts
        &&& self.gate_triggered == old.gate_triggered
    }

    /// Whether `finish()` passes: nothing was declared, or nothing is pending.
    pub open spec fn gate_is_open(self) -> bool {
        self.subtasks@.len() == 0 || all_terminal(self.subtasks@)
    }
}

// ---------------------------------------------------------------------------
// Operations
// ---------------------------------------------------------------------------

impl CompletenessTracker {
    pub fn new() -> (r: Self)
        ensures
            r.subtasks@ == Seq::<SubTask>::empty(),
            r.last_snapshot_iteration is None,
            r.last_snapshot_signature is None,
            !r.snapshot_since_mark,
            r.finish_attempts == 0,
            !r.gate_triggered,
    {
        CompletenessTracker::default()
    }

    /// Whether anything was declared.
    pub fn has_subtasks(&self) -> (r: bool)
        ensures
            r == (self.subtasks@.len() > 0),
    {
        self.subtasks.len() > 0
    }

    /// How many subtasks have a status of the given kind.
    pub fn count(&self, kind: StatusKind) -> (r: usize)
        ensures
            r == count_kind(self.subtasks@, kind),
    {
        let mut n: usize = 0;
        let mut i: usize = 0;
        while i < self.subtasks.len()
            invariant
                i <= self.subtasks@.len(),
                n <= i,
                n == count_kind(self.subtasks@.take(i as int), kind),
            decreases self.subtasks@.len() - i,
        {
            let ghost after = self.subtasks@.take(i + 1);
            assert(after.drop_last() == self.subtasks@.take(i as int));
            assert(after.last() == self.subtasks@[i as int]);
            if self.subtasks[i].status.kind() == kind {
                n += 1;
            }
            i += 1;
        }
        assert(self.subtasks@.take(self.subtasks@.len() as int) == self.subtasks@);
        n
    }

    /// How many subtasks are not in a terminal status.
    pub fn incomplete_count(&self) -> (r: usize)
        ensures
            r == count_kind(self.subtasks@, StatusKind::Pending),
            r == 0 <==> all_terminal(self.subtasks@),
    {
        proof {
            lemma_no_pending_iff_all_terminal(self.subtasks@);
        }
        self.count(StatusKind::Pending)
    }

    /// Whether `finish()` passes right now.
    pub fn gate_open(&self) -> (r: bool)
        ensures
            r == self.gate_is_open(),
    {
        if !self.has_subtasks() {
            return true;
        }
        self.incomplete_count() == 0
    }

    /// Replaces the subtask list. Refused once any subtask was resolved, so that
    /// a second declaration cannot wipe evidence.
    pub fn declare(&mut self, items: Vec<DeclareItem>) -> (r: Result<usize, &'static str>)
        ensures
            final(self).same_session(*old(self)),
            final(self).snapshot_since_mark == old(self).snapshot_since_mark,
            match r {
                Ok(n) => {
                    &&& forall|i: int|
                        0 <= i < old(self).subtasks@.len() ==> (#[trigger] old(
                            self,
                        ).subtasks@[i]).status is Pending
                    &&& n == items@.len()
                    &&& final(self).subtasks@ == items@.map_values(
                        |d: DeclareItem| fresh_subtask(d),
                    )
                },
                Err(e) => {
                    &&& exists|i: int|
                        0 <= i < old(self).subtasks@.len() && (#[trigger] old(
                            self,
                        ).subtasks@[i]).status.terminal()
                    &&& e@ == "cannot re-declare subtasks after any have been resolved"@
                    &&& *final(self) == *old(self)
                },
            },
    {
        let mut i: usize = 0;
        while i < self.subtasks.len()
            invariant
                *self == *old(self),
                i <= self.subtasks@.len(),
                forall|j: int|
                    0 <= j < i ==> (#[trigger] old(self).subtasks@[j]).status is Pending,
            decreases self.subtasks@.len() - i,
        {
            match self.subtasks[i].status {
                SubTaskStatus::Pending => {},
                _ => {
                    assert(old(self).subtasks@[i as int].status.terminal());
                    return Err("cannot re-declare subtasks after any have been resolved");
                },
            }
            i += 1;
        }
        let n: usize = items.len();
        let mut fresh: Vec<SubTask> = Vec::new();
        let mut k: usize = 0;
        while k < n
            invariant
                k <= n == items@.len(),
                fresh@ == items@.take(k as int).map_values(|d: DeclareItem| fresh_subtask(d)),
            decreases n - k,
        {
            fresh.push(
                SubTask {
                    id: items[k].id.clone(),
                    description: items[k].description.clone(),
                    status: SubTaskStatus::Pending,
                    evidence_iteration: None,
                    evidence_signature: None,
                    decided_at_secs: None,
                },
            );
            k += 1;
            assert(items@.take(k as int) == items@.take(k - 1).push(items@[k - 1]));
        }
        assert(items@.take(n as int) == items@);
        self.subtasks = fresh;
        Ok(n)
    }

    /// Records a fresh snapshot.
    pub fn record_snapshot(&mut self, iteration: usize, signature: String)
        ensures
            final(self).subtasks == old(self).subtasks,
            final(self).last_snapshot_iteration == Some(iteration),
            final(self).last_snapshot_signature == Some(signature),
            final(self).snapshot_since_mark,
            final(self).finish_attempts == old(self).finish_attempts,
            final(self).gate_triggered == old(self).gate_triggered,
    {
        self.last_snapshot_iteration = Some(iteration);
        self.last_snapshot_signature = Some(signature);
        self.snapshot_since_mark = true;
    }

    fn position(&self, id: &str) -> (r: Option<usize>)
        ensures
            match r {
                Some(i) => i < self.subtasks@.len() && lookup(self.subtasks@, id@) == Some(
                    i as int,
                ),
                None => lookup(self.subtasks@, id@) is None,
            },
    {
        let mut i: usize = 0;
        while i < self.subtasks.len()
            invariant
                i <= self.subtasks@.len(),
                lookup(self.subtasks@, id@) == lookup_from(self.subtasks@, id@, i as int),
            decreases self.subtasks@.len() - i,
        {
            if text::same(self.subtasks[i].id.as_str(), id) {
                return Some(i);
            }
            i += 1;
        }
        None
    }

    /// Marks a subtask `Done` at the given time. The signature must be that of
    /// the last snapshot, taken since the previous subtask was marked done.
    pub fn mark_done_at(&mut self, id: &str, snapshot_signature: &str, now: u64) -> (r: MarkOutcome)
        ensures
            r == old(self).mark_done_outcome(id@, snapshot_signature@),
            final(self).subtasks@ == old(self).after_mark_done(id@, snapshot_signature@, now),
            final(self).snapshot_since_mark == (old(self).snapshot_since_mark && !(r
                is MarkedDone)),
            final(self).same_session(*old(self)),
    {
        let i: usize = match self.position(id) {
            None => return MarkOutcome::UnknownId,
            Some(i) => i,
        };
        match self.subtasks[i].status {
            SubTaskStatus::Pending => {},
            _ => return MarkOutcome::AlreadyTerminal { current: self.subtasks[i].status.clone() },
        }
        let last_iter: usize = match self.last_snapshot_iteration {
            None => return MarkOutcome::StaleEvidence {
                last_snapshot_iteration: 0,
                current_iteration: 0,
            },
            Some(k) => k,
        };
        let last_sig: String = match &self.last_snapshot_signature {
            None => return MarkOutcome::StaleEvidence {
                last_snapshot_iteration: last_iter,
                current_iteration: last_iter,
            },
            Some(s) => s.clone(),
        };
        if !self.snapshot_since_mark || !text::same(last_sig.as_str(), snapshot_signature) {
            return MarkOutcome::StaleEvidence {
                last_snapshot_iteration: last_iter,
                current_iteration: last_iter,
            };
        }
        let done = SubTask {
            id: self.subtasks[i].id.clone(),
            description: self.subtasks[i].description.clone(),
            status: SubTaskStatus::Done,
            evidence_iteration: Some(last_iter),
            evidence_signature: Some(last_sig.clone()),
            decided_at_secs: Some(now),
        };
        self.subtasks.set(i, done);
        self.snapshot_since_mark = false;
        MarkOutcome::MarkedDone { evidence_iteration: last_iter, evidence_signature: last_sig }
    }

    /// `mark_done_at` the present second.
    pub fn mark_done(&mut self, id: &str, snapshot_signature: &str) -> (r: MarkOutcome)
        ensures
            r == old(self).mark_done_outcome(id@, snapshot_signature@),
            exists|now: u64|
                final(self).subtasks@ == #[trigger] old(self).after_mark_done(
                    id@,
                    snapshot_signature@,
                    now,
                ),
            final(self).snapshot_since_mark == (old(self).snapshot_since_mark && !(r
                is MarkedDone)),
            final(self).same_session(*old(self)),
    {
        let now: u64 = clock::now_secs();
        self.mark_done_at(id, snapshot_signature, now)
    }

    fn resolve_at(&mut self, id: &str, status: SubTaskStatus, now: u64) -> (r: Option<MarkOutcome>)
        ensures
            r == old(self).refusal(id@),
            final(self).subtasks@ == old(self).after_resolve(id@, status, now),
            final(self).snapshot_since_mark == old(self).snapshot_since_mark,
            final(self).same_session(*old(self)),
    {
        let i: usize = match self.position(id) {
            None => return Some(MarkOutcome::UnknownId),
            Some(i) => i,
        };
        match self.subtasks[i].status {
            SubTaskStatus::Pending => {},
            _ => return Some(
                MarkOutcome::AlreadyTerminal { current: self.subtasks[i].status.clone() },
            ),
        }
        let next = SubTask {
            id: self.subtasks[i].id.clone(),
            description: self.subtasks[i].description.clone(),
            status,
            evidence_iteration: self.subtasks[i].evidence_iteration,
            evidence_signature: text::opt_owned(&self.subtasks[i].evidence_signature),
            decided_at_secs: Some(now),
        };
        self.subtasks.set(i, next);
        None
    }

    /// Marks a subtask `Skipped` at the given time. No snapshot is needed: the
    /// model states that it leaves the subtask out.
    pub fn mark_skipped_at(&mut self, id: &str, reason: String, now: u64) -> (r: MarkOutcome)
        ensures
            match old(self).refusal(id@) {
                Some(refused) => r == refused,
                None => r == (MarkOutcome::MarkedSkipped { reason }),
            },
            final(self).subtasks@ == old(self).after_resolve(
                id@,
                SubTaskStatus::Skipped { reason },
                now,
            ),
            final(self).snapshot_since_mark == old(self).snapshot_since_mark,
            final(self).same_session(*old(self)),
    {
        match self.resolve_at(id, SubTaskStatus::Skipped { reason: reason.clone() }, now) {
            Some(refused) => refused,
            None => MarkOutcome::MarkedSkipped { reason },
        }
    }

    /// `mark_skipped_at` the present second.
    pub fn mark_skipped(&mut self, id: &str, reason: String) -> (r: MarkOutcome)
        ensures
            match old(self).refusal(id@) {
                Some(refused) => r == refused,
                None => r == (MarkOutcome::MarkedSkipped { reason }),
            },
            exists|now: u64|
                final(self).subtasks@ == #[trigger] old(self).after_resolve(
                    id@,
                    SubTaskStatus::Skipped { reason },
                    now,
                ),
            final(self).snapshot_since_mark == old(self).snapshot_since_mark,
            final(self).same_session(*old(self)),
    {
        let now: u64 = clock::now_secs();
        self.mark_skipped_at(id, reason, now)
    }

    /// Marks a subtask `Failed` at the given time: it was tried without a
    /// verified success.
    pub fn mark_failed_at(&mut self, id: &str, reason: String, now: u64) -> (r: MarkOutcome)
        ensures
            match old(self).refusal(id@) {
                Some(refused) => r == refused,
                None => r == (MarkOutcome::MarkedSkipped { reason }),
            },
            final(self).subtasks@ == old(self).after_resolve(
                id@,
                SubTaskStatus::Failed { reason },
                now,
            ),
            final(self).snapshot_since_mark == old(self).snapshot_since_mark,
            final(self).same_session(*old(self)),
    {
        match self.resolve_at(id, SubTaskStatus::Failed { reason: reason.clone() }, now) {
            Some(refused) => refused,
            None => MarkOutcome::MarkedSkipped { reason },
        }
    }

    /// `mark_failed_at` the present second.
    pub fn mark_failed(&mut self, id: &str, reason: String) -> (r: MarkOutcome)
        ensures
            match old(self).refusal(id@) {
                Some(refused) => r == refused,
                None => r == (MarkOutcome::MarkedSkipped { reason }),
            },
            exists|now: u64|
                final(self).subtasks@ == #[trigger] old(self).after_resolve(
                    id@,
                    SubTaskStatus::Failed { reason },
                    now,
                ),
            final(self).snapshot_since_mark == old(self).snapshot_since_mark,
            final(self).same_session(*old(self)),
    {
        let now: u64 = clock::now_secs();
        self.mark_failed_at(id, reason, now)
    }

    /// Marks a subtask `Exhausted` at the given time: its budget ran out.
    pub fn mark_exhausted_at(&mut self, id: &str, reason: String, now: u64) -> (r: MarkOutcome)
        ensures
            match old(self).refusal(id@) {
                Some(refused) => r == refused,
                None => r == (MarkOutcome::MarkedExhausted { reason }),
            },
            final(self).subtasks@ == old(self).after_resolve(
                id@,
                SubTaskStatus::Exhausted { reason },
                now,
            ),
            final(self).snapshot_since_mark == old(self).snapshot_since_mark,
            final(self).same_session(*old(self)),
    {
        match self.resolve_at(id, SubTaskStatus::Exhausted { reason: reason.clone() }, now) {
            Some(refused) => refused,
            None => MarkOutcome::MarkedExhausted { reason },
        }
    }

    /// `mark_exhausted_at` the present second.
    pub fn mark_exhausted(&mut self, id: &str, reason: String) -> (r: MarkOutcome)
        ensures
            match old(self).refusal(id@) {
                Some(refused) => r == refused,
                None => r == (MarkOutcome::MarkedExhausted { reason }),
            },
            exists|now: u64|
                final(self).subtasks@ == #[trigger] old(self).after_resolve(
                    id@,
                    SubTaskStatus::Exhausted { reason },
                    now,
                ),
            final(self).snapshot_since_mark == old(self).snapshot_since_mark,
            final(self).same_session(*old(self)),
    {
        let now: u64 = clock::now_secs();
        self.mark_exhausted_at(id, reason, now)
    }

    /// Counts one call of `finish()`.
    pub fn record_finish_attempt(&mut self) -> (r: usize)
        requires
            old(self).finish_attempts < usize::MAX,
        ensures
            r == old(self).finish_attempts + 1,
            *final(self) == (CompletenessTracker { finish_attempts: r, ..*old(self) }),
    {
        self.finish_attempts = self.finish_attempts + 1;
        self.finish_attempts
    }

    /// Notes that a `finish()` was held back.
    pub fn note_gate_triggered(&mut self)
        ensures
            *final(self) == (CompletenessTracker { gate_triggered: true, ..*old(self) }),
    {
        self.gate_triggered = true;
    }
}

// ---------------------------------------------------------------------------
// Summaries
// ---------------------------------------------------------------------------

/// One transcript line: time stamp, session, body.
pub open spec fn line_text(ts: u64, session: Seq<char>, body: Seq<char>) -> Seq<char> {
    "["@ + text::decimal(ts as nat) + "] ["@ + session + "] "@ + body + "\n"@
}

fn line(ts: u64, session: &str, body: &str) -> (r: String)
    ensures
        r@ == line_text(ts, session@, body@),
{
    let mut out = text::owned("[");
    out.append(text::decimal_of(ts).as_str());
    out.append("] [");
    out.append(session);
    out.append("] ");
    out.append(body);
    out.append("\n");
    out
}

/// The count of each bucket. That of the exhausted ones is shown where there are
/// some.
pub open spec fn counts_text(s: Seq<SubTask>) -> Seq<char> {
    "counts: total="@ + text::decimal(s.len()) + " done="@ + text::decimal(
        count_kind(s, StatusKind::Done),
    ) + " skipped="@ + text::decimal(count_kind(s, StatusKind::Skipped)) + " failed="@
        + text::decimal(count_kind(s, StatusKind::Failed)) + (if count_kind(
        s,
        StatusKind::Exhausted,
    ) > 0 {
        " exhausted="@ + text::decimal(count_kind(s, StatusKind::Exhausted))
    } else {
        Seq::empty()
    }) + " pending="@ + text::decimal(count_kind(s, StatusKind::Pending))
}

/// The evidence of a subtask; only a `Done` one can show any.
pub open spec fn evidence_text(s: SubTask) -> Seq<char> {
    if s.status is Done && s.evidence_iteration is Some && s.evidence_signature is Some {
        "evidence=iter:"@ + text::decimal(s.evidence_iteration->0 as nat) + " sig:"@
            + s.evidence_signature->0@
    } else {
        "evidence=none"@
    }
}

/// The first line of a subtask's row; `n` counts rows from one.
pub open spec fn row_text(n: nat, s: SubTask) -> Seq<char> {
    let head = "  ["@ + text::padded_left(text::decimal(n), 2, ' ') + "] id="@ + s.id@
        + " status="@ + s.status.spec_name();
    let with_reason = match s.status.spec_reason() {
        Some(reason) => head + " reason="@ + reason,
        None => head,
    };
    with_reason + " desc=\""@ + s.description@ + "\""@
}

/// The rows of the first `n` subtasks.
pub open spec fn rows_text(ts: u64, session: Seq<char>, s: Seq<SubTask>, n: nat) -> Seq<char>
    decreases n,
{
    if n == 0 {
        Seq::empty()
    } else {
        rows_text(ts, session, s, (n - 1) as nat) + line_text(ts, session, row_text(n, s[n - 1]))
            + line_text(ts, session, "       "@ + evidence_text(s[n - 1]))
    }
}

/// The summary of a session as it is written to the transcript.
pub open spec fn summary_text(
    t: CompletenessTracker,
    ts: u64,
    session: Seq<char>,
    task: Seq<char>,
) -> Seq<char> {
    let head = "\n"@ + line_text(ts, session, "=== COMPLETENESS SUMMARY ==="@) + line_text(
        ts,
        session,
        "task: "@ + task,
    );
    let body = if t.subtasks@.len() == 0 {
        head + line_text(ts, session, "no subtasks were declared; gate was a no-op."@)
    } else {
        head + line_text(ts, session, counts_text(t.subtasks@)) + line_text(
            ts,
            session,
            if t.gate_triggered {
                "gate_triggered: yes (finish() forced a snapshot re-prompt at least once)"@
            } else {
                "gate_triggered: no"@
            },
        ) + rows_text(ts, session, t.subtasks@, t.subtasks@.len())
    };
    body + line_text(ts, session, "=== END COMPLETENESS SUMMARY ==="@) + "\n"@
}

/// The one-line status. Exhausted subtasks are named where there are some.
pub open spec fn inline_text(s: Seq<SubTask>) -> Seq<char> {
    if s.len() == 0 {
        "no subtasks declared"@
    } else {
        text::decimal(count_kind(s, StatusKind::Done)) + "/"@ + text::decimal(s.len())
            + " done ("@ + text::decimal(count_kind(s, StatusKind::Skipped)) + " skipped, "@
            + text::decimal(count_kind(s, StatusKind::Failed)) + " failed"@ + (if count_kind(
            s,
            StatusKind::Exhausted,
        ) > 0 {
            ", "@ + text::decimal(count_kind(s, StatusKind::Exhausted)) + " exhausted"@
        } else {
            Seq::empty()
        }) + "), "@ + text::decimal(count_kind(s, StatusKind::Pending)) + " pending"@
    }
}

fn row(n: usize, s: &SubTask) -> (r: String)
    ensures
        r@ == row_text(n as nat, *s),
{
    let mut out = text::owned("  [");
    out.append(text::pad_left(text::decimal_of(n as u64).as_str(), 2, ' ').as_str());
    out.append("] id=");
    out.append(s.id.as_str());
    out.append(" status=");
    out.append(s.status.as_str());
    if let Some(reason) = s.status.reason() {
        out.append(" reason=");
        out.append(reason);
    }
    out.append(" desc=\"");
    out.append(s.description.as_str());
    out.append("\"");
    out
}

fn evidence(s: &SubTask) -> (r: String)
    ensures
        r@ == evidence_text(*s),
{
    match (&s.status, s.evidence_iteration, &s.evidence_signature) {
        (SubTaskStatus::Done, Some(it), Some(sig)) => {
            let mut out = text::owned("evidence=iter:");
            out.append(text::decimal_of(it as u64).as_str());
            out.append(" sig:");
            out.append(sig.as_str());
            out
        },
        _ => text::owned("evidence=none"),
    }
}

impl CompletenessTracker {
    fn counts(&self) -> (r: String)
        ensures
            r@ == counts_text(self.subtasks@),
    {
        let mut out = text::owned("counts: total=");
        out.append(text::decimal_of(self.subtasks.len() as u64).as_str());
        out.append(" done=");
        out.append(text::decimal_of(self.count(StatusKind::Done) as u64).as_str());
        out.append(" skipped=");
        out.append(text::decimal_of(self.count(StatusKind::Skipped) as u64).as_str());
        out.append(" failed=");
        out.append(text::decimal_of(self.count(StatusKind::Failed) as u64).as_str());
        let mut exhausted = String::new();
        if self.count(StatusKind::Exhausted) > 0 {
            exhausted.append(" exhausted=");
            exhausted.append(text::decimal_of(self.count(StatusKind::Exhausted) as u64).as_str());
        }
        out.append(exhausted.as_str());
        out.append(" pending=");
        out.append(text::decimal_of(self.count(StatusKind::Pending) as u64).as_str());
        out
    }

    /// Renders the end-of-session summary for the given time.
    pub fn write_summary_at(&self, ts: u64, session_id: &str, task_summary: &str) -> (r: String)
        ensures
            r@ == summary_text(*self, ts, session_id@, task_summary@),
    {
        let mut out = text::owned("\n");
        out.append(line(ts, session_id, "=== COMPLETENESS SUMMARY ===").as_str());
        let mut task = text::owned("task: ");
        task.append(task_summary);
        out.append(line(ts, session_id, task.as_str()).as_str());
        if !self.has_subtasks() {
            out.append(
                line(ts, session_id, "no subtasks were declared; gate was a no-op.").as_str(),
            );
        } else {
            out.append(line(ts, session_id, self.counts().as_str()).as_str());
            let gate = if self.gate_triggered {
                "gate_triggered: yes (finish() forced a snapshot re-prompt at least once)"
            } else {
                "gate_triggered: no"
            };
            out.append(line(ts, session_id, gate).as_str());
            let mut rows = String::new();
            let mut i: usize = 0;
            while i < self.subtasks.len()
                invariant
                    i <= self.subtasks@.len(),
                    rows@ == rows_text(ts, session_id@, self.subtasks@, i as nat),
                decreases self.subtasks@.len() - i,
            {
                let sub = &self.subtasks[i];
                i += 1;
                rows.append(line(ts, session_id, row(i, sub).as_str()).as_str());
                let mut shown = text::owned("       ");
                shown.append(evidence(sub).as_str());
                rows.append(line(ts, session_id, shown.as_str()).as_str());
            }
            out.append(rows.as_str());
        }
        out.append(line(ts, session_id, "=== END COMPLETENESS SUMMARY ===").as_str());
        out.append("\n");
        out
    }

    /// Renders the end-of-session summary, stamped with the present second.
    pub fn write_summary(&self, session_id: &str, task_summary: &str) -> (r: String)
        ensures
            exists|ts: u64|
                r@ == #[trigger] summary_text(*self, ts, session_id@, task_summary@),
    {
        let ts: u64 = clock::now_secs();
        self.write_summary_at(ts, session_id, task_summary)
    }

    /// The one-line status shown while a session runs.
    pub fn inline_status(&self) -> (r: String)
        ensures
            r@ == inline_text(self.subtasks@),
    {
        if !self.has_subtasks() {
            return text::owned("no subtasks declared");
        }
        let mut out = text::decimal_of(self.count(StatusKind::Done) as u64);
        out.append("/");
        out.append(text::decimal_of(self.subtasks.len() as u64).as_str());
        out.append(" done (");
        out.append(text::decimal_of(self.count(StatusKind::Skipped) as u64).as_str());
        out.append(" skipped, ");
        out.append(text::decimal_of(self.count(StatusKind::Failed) as u64).as_str());
        out.append(" failed");
        let mut exhausted = String::new();
        if self.count(StatusKind::Exhausted) > 0 {
            exhausted.append(", ");
            exhausted.append(text::decimal_of(self.count(StatusKind::Exhausted) as u64).as_str());
            exhausted.append(" exhausted");
        }
        out.append(exhausted.as_str());
        out.append("), ");
        out.append(text::decimal_of(self.incomplete_count() as u64).as_str());
        out.append(" pending");
        out
    }
}

// ---------------------------------------------------------------------------
// Laws
// ---------------------------------------------------------------------------

/// Every `Done` subtask carries the iteration and signature of a snapshot, and
/// every resolved one the time of its resolution; a pending one carries neither.
pub open spec fn evidence_ok(s: Seq<SubTask>) -> bool {
    forall|i: int| 0 <= i < s.len() ==> subtask_ok(#[trigger] s[i])
}

pub open spec fn subtask_ok(s: SubTask) -> bool {
    &&& s.status is Done <==> s.evidence_iteration is Some
    &&& s.status is Done <==> s.evidence_signature is Some
    &&& s.status.terminal() <==> s.decided_at_secs is Some
}

/// No mark, accepted or refused, changes a subtask that is already resolved,
/// nor the number, ids and descriptions of the subtasks.
pub proof fn law_resolved_subtasks_are_final(
    t: CompletenessTracker,
    id: Seq<char>,
    sig: Seq<char>,
    status: SubTaskStatus,
    now: u64,
    i: int,
)
    requires
        0 <= i < t.subtasks@.len(),
    ensures
        t.after_mark_done(id, sig, now).len() == t.subtasks@.len(),
        t.after_resolve(id, status, now).len() == t.subtasks@.len(),
        t.after_mark_done(id, sig, now)[i].id == t.subtasks@[i].id,
        t.after_resolve(id, status, now)[i].id == t.subtasks@[i].id,
        t.after_mark_done(id, sig, now)[i].description == t.subtasks@[i].description,
        t.after_resolve(id, status, now)[i].description == t.subtasks@[i].description,
        t.subtasks@[i].status.terminal() ==> t.after_mark_done(id, sig, now)[i] == t.subtasks@[i],
        t.subtasks@[i].status.terminal() ==> t.after_resolve(id, status, now)[i] == t.subtasks@[i],
{
    lemma_lookup_from(t.subtasks@, id, 0);
}

/// A subtask that `mark_done` turns `Done` carries the iteration and the
/// signature of the last snapshot, and the caller named that signature.
pub proof fn law_done_needs_the_last_snapshot(
    t: CompletenessTracker,
    id: Seq<char>,
    sig: Seq<char>,
    now: u64,
    i: int,
)
    requires
        0 <= i < t.subtasks@.len(),
        !(t.subtasks@[i].status is Done),
        t.after_mark_done(id, sig, now)[i].status is Done,
    ensures
        t.snapshot_since_mark,
        t.last_snapshot_signature is Some,
        sig == t.last_snapshot_signature->0@,
        t.after_mark_done(id, sig, now)[i].evidence_signature == t.last_snapshot_signature,
        t.after_mark_done(id, sig, now)[i].evidence_iteration == t.last_snapshot_iteration,
        t.subtasks@[i].id@ == id,
{
    lemma_lookup_from(t.subtasks@, id, 0);
}

/// One snapshot confirms at most one subtask: with no snapshot since the last
/// successful mark, no further mark is accepted.
pub proof fn law_one_mark_per_snapshot(
    t: CompletenessTracker,
    id: Seq<char>,
    sig: Seq<char>,
    now: u64,
)
    requires
        !t.snapshot_since_mark,
    ensures
        !(t.mark_done_outcome(id, sig) is MarkedDone),
        t.after_mark_done(id, sig, now) == t.subtasks@,
{
}

/// Declaring and marking keep every record consistent with its status.
pub proof fn law_evidence_stays_consistent(
    t: CompletenessTracker,
    items: Seq<DeclareItem>,
    id: Seq<char>,
    sig: Seq<char>,
    status: SubTaskStatus,
    now: u64,
)
    requires
        evidence_ok(t.subtasks@),
        status.terminal(),
        !(status is Done),
    ensures
        evidence_ok(items.map_values(|d: DeclareItem| fresh_subtask(d))),
        evidence_ok(t.after_mark_done(id, sig, now)),
        evidence_ok(t.after_resolve(id, status, now)),
{
    lemma_lookup_from(t.subtasks@, id, 0);
}

/// A mark that is accepted resolves exactly one pending subtask.
pub proof fn law_an_accepted_mark_resolves_one(
    t: CompletenessTracker,
    id: Seq<char>,
    status: SubTaskStatus,
    now: u64,
)
    requires
        status.terminal(),
        t.refusal(id) is None,
    ensures
        count_kind(t.after_resolve(id, status, now), StatusKind::Pending) + 1 == count_kind(
            t.subtasks@,
            StatusKind::Pending,
        ),
{
    lemma_lookup_from(t.subtasks@, id, 0);
    let i = lookup(t.subtasks@, id)->0;
    lemma_count_after_update(
        t.subtasks@,
        i,
        resolved(t.subtasks@[i], status, now),
        StatusKind::Pending,
    );
}

pub proof fn lemma_count_after_update(s: Seq<SubTask>, i: int, x: SubTask, k: StatusKind)
    requires
        0 <= i < s.len(),
    ensures
        count_kind(s.update(i, x), k) + (if s[i].status.spec_kind() == k {
            1int
        } else {
            0int
        }) == count_kind(s, k) + (if x.status.spec_kind() == k {
            1int
        } else {
            0int
        }),
    decreases s.len(),
{
    let u = s.update(i, x);
    if i == s.len() - 1 {
        assert(u.drop_last() == s.drop_last());
    } else {
        assert(u.drop_last() == s.drop_last().update(i, x));
        lemma_count_after_update(s.drop_last(), i, x, k);
    }
}

/// A subtask is looked up by its id, and the first that bears it is meant.
pub proof fn law_lookup_finds_the_first(s: Seq<SubTask>, id: Seq<char>)
    ensures
        match lookup(s, id) {
            Some(i) => {
                &&& 0 <= i < s.len()
                &&& s[i].id@ == id
                &&& forall|j: int| 0 <= j < i ==> (#[trigger] s[j]).id@ != id
            },
            None => forall|j: int| 0 <= j < s.len() ==> (#[trigger] s[j]).id@ != id,
        },
{
    lemma_lookup_from(s, id, 0);
}

/// A mark changes the subtask that it names and no other: the first one with that id
/// gets the status of the mark, if it was pending, and the time of the mark.
pub proof fn law_marks_go_to_the_named_subtask(
    t: CompletenessTracker,
    id: Seq<char>,
    status: SubTaskStatus,
    now: u64,
    i: int,
)
    requires
        0 <= i < t.subtasks@.len(),
    ensures
        t.subtasks@[i].id@ != id ==> t.after_resolve(id, status, now)[i] == t.subtasks@[i],
        t.subtasks@[i].id@ == id && t.subtasks@[i].status is Pending && (forall|j: int|
            0 <= j < i ==> (#[trigger] t.subtasks@[j]).id@ != id) ==> {
            let after = t.after_resolve(id, status, now)[i];
            &&& after.status == status
            &&& after.decided_at_secs == Some(now)
            &&& after.evidence_iteration == t.subtasks@[i].evidence_iteration
            &&& after.evidence_signature == t.subtasks@[i].evidence_signature
        },
{
    lemma_lookup_from(t.subtasks@, id, 0);
}

/// A mark as done is taken at its word where its signature is that of a snapshot that
/// no mark has used: the first subtask with its id is done then, and no other changes.
pub proof fn law_confirmed_marks_are_taken(
    t: CompletenessTracker,
    id: Seq<char>,
    sig: Seq<char>,
    now: u64,
    i: int,
)
    requires
        0 <= i < t.subtasks@.len(),
    ensures
        t.subtasks@[i].id@ != id ==> t.after_mark_done(id, sig, now)[i] == t.subtasks@[i],
        t.subtasks@[i].id@ == id && t.subtasks@[i].status is Pending && (forall|j: int|
            0 <= j < i ==> (#[trigger] t.subtasks@[j]).id@ != id) ==> (t.after_mark_done(
            id,
            sig,
            now,
        )[i].status is Done <==> {
            &&& t.snapshot_since_mark
            &&& t.last_snapshot_iteration is Some
            &&& t.last_snapshot_signature is Some
            &&& t.last_snapshot_signature->0@ == sig
        }),
        t.after_mark_done(id, sig, now)[i].status is Done && t.subtasks@[i].status is Pending ==> {
            &&& t.after_mark_done(id, sig, now)[i].decided_at_secs == Some(now)
            &&& t.mark_done_outcome(id, sig) is MarkedDone
        },
{
    lemma_lookup_from(t.subtasks@, id, 0);
}

/// A mark is refused for an id that nothing bears, and for a subtask that has been
/// resolved, whose status it then tells; for nothing else but stale evidence.
pub proof fn law_refusals_tell_why(t: CompletenessTracker, id: Seq<char>, sig: Seq<char>)
    ensures
        (forall|j: int| 0 <= j < t.subtasks@.len() ==> (#[trigger] t.subtasks@[j]).id@ != id)
            <==> t.refusal(id) is Some && t.refusal(id)->0 is UnknownId,
        t.refusal(id) matches Some(MarkOutcome::AlreadyTerminal { current }) ==> {
            &&& current !is Pending
            &&& exists|i: int|
                0 <= i < t.subtasks@.len() && (#[trigger] t.subtasks@[i]).id@ == id
                    && t.subtasks@[i].status == current
        },
        t.refusal(id) is Some ==> t.mark_done_outcome(id, sig) == t.refusal(id)->0,
        t.refusal(id) is None ==> t.mark_done_outcome(id, sig) is MarkedDone || t.mark_done_outcome(
            id,
            sig,
        ) is StaleEvidence,
        t.refusal(id) is None ==> exists|i: int|
            0 <= i < t.subtasks@.len() && (#[trigger] t.subtasks@[i]).id@ == id
                && t.subtasks@[i].status is Pending,
{
    lemma_lookup_from(t.subtasks@, id, 0);
}

/// The subtasks of one kind are counted one by one, and every subtask is of one of the
/// five kinds.
pub proof fn law_every_subtask_is_counted_once(s: Seq<SubTask>, k: StatusKind)
    ensures
        count_kind(s, k) == s.filter(|t: SubTask| t.status.spec_kind() == k).len(),
        count_kind(s, StatusKind::Pending) + count_kind(s, StatusKind::Done) + count_kind(
            s,
            StatusKind::Skipped,
        ) + count_kind(s, StatusKind::Failed) + count_kind(s, StatusKind::Exhausted) == s.len(),
    decreases s.len(),
{
    reveal(Seq::filter);
    if s.len() > 0 {
        law_every_subtask_is_counted_once(s.drop_last(), k);
        let p = |t: SubTask| t.status.spec_kind() == k;
        assert(s.filter(p) == if p(s.last()) {
            s.drop_last().filter(p).push(s.last())
        } else {
            s.drop_last().filter(p)
        });
    }
}

/// The name of a status tells its kind, and the reason that was given for it is kept
/// word for word.
pub proof fn law_statuses_are_told_by_name(a: SubTaskStatus, b: SubTaskStatus)
    ensures
        a.spec_name() == b.spec_name() <==> a.spec_kind() == b.spec_kind(),
        a is Pending <==> a.spec_kind() is Pending,
        a is Done <==> a.spec_kind() is Done,
        a matches SubTaskStatus::Skipped { reason } ==> a.spec_reason() == Some(reason@)
            && a.spec_name() == "skipped"@ && a.spec_kind() is Skipped,
        a matches SubTaskStatus::Failed { reason } ==> a.spec_reason() == Some(reason@)
            && a.spec_name() == "failed"@ && a.spec_kind() is Failed,
        a matches SubTaskStatus::Exhausted { reason } ==> a.spec_reason() == Some(reason@)
            && a.spec_name() == "exhausted"@ && a.spec_kind() is Exhausted,
        a is Pending || a is Done ==> a.spec_reason() is None,
{
    reveal_strlit("pending");
    reveal_strlit("done");
    reveal_strlit("skipped");
    reveal_strlit("failed");
    reveal_strlit("exhausted");
    let x = a.spec_name();
    let y = b.spec_name();
    if x == y {
        assert(x.len() == y.len());
        assert(x[0] == y[0]);
    }
}

/// A task may be finished exactly where none of its subtasks is pending.
pub proof fn law_open_means_nothing_pending(t: CompletenessTracker)
    ensures
        t.gate_is_open() <==> count_kind(t.subtasks@, StatusKind::Pending) == 0,
        t.gate_is_open() <==> forall|i: int|
            0 <= i < t.subtasks@.len() ==> (#[trigger] t.subtasks@[i]).status !is Pending,
{
    lemma_no_pending_iff_all_terminal(t.subtasks@);
}

/// A line of the summary shows its time, its session and its text.
pub proof fn law_lines_show_their_text(ts: u64, session: Seq<char>, body: Seq<char>)
    ensures
        text::occurs(line_text(ts, session, body), body),
        text::occurs(line_text(ts, session, body), session),
        text::occurs(line_text(ts, session, body), text::decimal(ts as nat)),
        line_text(ts, session, body).last() == '\n',
{
    broadcast use text::group_occurs;

    reveal_strlit("\n");
}

/// The row of a subtask shows its number, its id, its status, what it is about and,
/// where there is one, the reason of the status.
pub proof fn law_rows_show_the_subtask(n: nat, s: SubTask)
    ensures
        text::occurs(row_text(n, s), text::decimal(n)),
        text::occurs(row_text(n, s), "] id="@ + s.id@),
        text::occurs(row_text(n, s), " status="@ + s.status.spec_name()),
        text::occurs(row_text(n, s), " desc=\""@ + s.description@),
        s.status.spec_reason() is Some ==> text::occurs(
            row_text(n, s),
            " reason="@ + s.status.spec_reason()->0,
        ),
{
    broadcast use text::group_occurs;

    let number = text::padded_left(text::decimal(n), 2, ' ');
    text::law_padding_on_the_left(text::decimal(n), 2, ' ');
    let pad = number.take(number.len() - text::decimal(n).len());
    assert(number == pad + text::decimal(n));
}

/// Of a subtask that is done the evidence is shown, of any other none is.
pub proof fn law_evidence_is_shown_of_done_subtasks(s: SubTask)
    requires
        subtask_ok(s),
    ensures
        s.status is Done ==> {
            &&& text::occurs(evidence_text(s), s.evidence_signature->0@)
            &&& text::occurs(evidence_text(s), text::decimal(s.evidence_iteration->0 as nat))
        },
        s.status !is Done ==> evidence_text(s) == "evidence=none"@,
{
    broadcast use text::group_occurs;

}

proof fn lemma_rows_hold(ts: u64, session: Seq<char>, s: Seq<SubTask>, n: nat, i: int)
    requires
        0 <= i < n <= s.len(),
    ensures
        text::occurs(
            rows_text(ts, session, s, n),
            line_text(ts, session, row_text((i + 1) as nat, s[i])) + line_text(
                ts,
                session,
                "       "@ + evidence_text(s[i]),
            ),
        ),
    decreases n,
{
    broadcast use text::group_occurs;

    if i < n - 1 {
        lemma_rows_hold(ts, session, s, (n - 1) as nat, i);
    }
}

/// The summary of a task lists every subtask, with its number and its evidence.
pub proof fn law_summaries_list_every_subtask(
    t: CompletenessTracker,
    ts: u64,
    session: Seq<char>,
    task: Seq<char>,
    i: int,
)
    requires
        0 <= i < t.subtasks@.len(),
    ensures
        text::occurs(summary_text(t, ts, session, task), row_text((i + 1) as nat, t.subtasks@[i])),
        text::occurs(summary_text(t, ts, session, task), evidence_text(t.subtasks@[i])),
        text::occurs(summary_text(t, ts, session, task), counts_text(t.subtasks@)),
{
    broadcast use text::group_occurs;

    let s = t.subtasks@;
    let w = summary_text(t, ts, session, task);
    let rows = rows_text(ts, session, s, s.len());
    let row = line_text(ts, session, row_text((i + 1) as nat, s[i]));
    let below = line_text(ts, session, "       "@ + evidence_text(s[i]));
    lemma_rows_hold(ts, session, s, s.len(), i);
    assert(text::occurs(w, rows));
    text::lemma_occurs_through(w, rows, row + below);
    text::lemma_occurs_through(w, row + below, row_text((i + 1) as nat, s[i]));
    text::lemma_occurs_through(w, row + below, evidence_text(s[i]));
}

/// The summary names the task that it is of, whether subtasks were declared or not.
pub proof fn law_summaries_name_the_task(
    t: CompletenessTracker,
    ts: u64,
    session: Seq<char>,
    task: Seq<char>,
)
    ensures
        text::occurs(summary_text(t, ts, session, task), "task: "@ + task),
{
    broadcast use text::group_occurs;

}

/// The counts of a summary are those of the subtasks, each behind its name.
pub proof fn law_counts_are_told_by_name(s: Seq<SubTask>)
    ensures
        text::occurs(counts_text(s), "counts: total="@ + text::decimal(s.len())),
        text::occurs(
            counts_text(s),
            " done="@ + text::decimal(count_kind(s, StatusKind::Done)),
        ),
        text::occurs(
            counts_text(s),
            " skipped="@ + text::decimal(count_kind(s, StatusKind::Skipped)),
        ),
        text::occurs(
            counts_text(s),
            " failed="@ + text::decimal(count_kind(s, StatusKind::Failed)),
        ),
        text::occurs(
            counts_text(s),
            " pending="@ + text::decimal(count_kind(s, StatusKind::Pending)),
        ),
        count_kind(s, StatusKind::Exhausted) > 0 ==> text::occurs(
            counts_text(s),
            " exhausted="@ + text::decimal(count_kind(s, StatusKind::Exhausted)),
        ),
{
    broadcast use text::group_occurs;

}

/// What the model is told of its progress are the same counts.
pub proof fn law_progress_is_told_by_counts(s: Seq<SubTask>)
    requires
        s.len() > 0,
    ensures
        text::decimal(count_kind(s, StatusKind::Done)).is_prefix_of(inline_text(s)),
        text::occurs(inline_text(s), "/"@ + text::decimal(s.len())),
        text::occurs(
            inline_text(s),
            "), "@ + text::decimal(count_kind(s, StatusKind::Pending)),
        ),
        text::occurs(
            inline_text(s),
            text::decimal(count_kind(s, StatusKind::Skipped)) + " skipped, "@,
        ),
        text::occurs(
            inline_text(s),
            text::decimal(count_kind(s, StatusKind::Failed)) + " failed"@,
        ),
        count_kind(s, StatusKind::Exhausted) > 0 ==> text::occurs(
            inline_text(s),
            text::decimal(count_kind(s, StatusKind::Exhausted)) + " exhausted"@,
        ),
{
    broadcast use text::group_occurs;

}

/// What a mark leaves alone: the last look at the page, and how often finishing was
/// tried and held back.
pub proof fn law_marks_leave_the_session_alone(a: CompletenessTracker, b: CompletenessTracker)
    requires
        a.same_session(b),
    ensures
        a.last_snapshot_iteration == b.last_snapshot_iteration,
        a.last_snapshot_signature == b.last_snapshot_signature,
        a.finish_attempts == b.finish_attempts,
        a.gate_triggered == b.gate_triggered,
{
}

} // verus!
