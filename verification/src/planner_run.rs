//! The planner loop: one todo after the other is handed to a worker, and a report
//! counts only where its evidence holds.
//!
//! The caller owns the workers. It asks `begin_todo` what to do next, hands the
//! current todo to a worker where it is told to, and brings back what became of
//! it through `submit_failed` or `worker_reported`, until `begin_todo` says that
//! the plan is finished.

use vstd::prelude::*;
use crate::handoff::{BrowserResult, BrowserStatus, Handoff, KeyFinding, TodoResult};
use crate::orchestrator::{OrchestratorEvent, TurnSink};
use crate::planner;
use crate::research::ResearchFinding;
use crate::text;
use crate::todo;
use crate::todo::{AcceptanceKind, MarkTodoOutcome, Todo, TodoStatus};

verus! {

/// How often a todo is tried.
pub const MAX_ATTEMPTS: u32 = 3;

/// What the caller does next.
#[derive(Debug, Clone, Copy, PartialEq, Eq, Structural)]
pub enum PlannerStep {
    /// Hand the current todo to a worker.
    Submit,
    /// Go on to the next todo.
    Next,
    /// Every todo has been dealt with.
    Finished,
}

/// The state of a planner loop.
#[derive(Debug)]
pub struct Planner {
    /// The message that the task came from.
    pub task_id: String,
    pub todos: Vec<Todo>,
    /// The current todo.
    pub next: usize,
    pub key_findings: Vec<KeyFinding>,
    pub final_status: BrowserStatus,
    /// The signature of the last accepted evidence.
    pub last_snapshot_sig: Option<String>,
}

// ---------------------------------------------------------------------------
// Model
// ---------------------------------------------------------------------------

/// How a worker's report is taken.
pub enum Judgement {
    Cancelled,
    Accepted,
    Rejected,
    Failed,
}

pub open spec fn judgement(t: Todo, r: TodoResult) -> Judgement {
    if r.cancelled {
        Judgement::Cancelled
    } else if r.status is Done {
        if t.verdict(
            r.last_snapshot_signature@,
            r.last_obs_text@,
            r.last_snapshot_iteration,
        ) is Match {
            Judgement::Accepted
        } else {
            Judgement::Rejected
        }
    } else {
        Judgement::Failed
    }
}

/// Whether a report is the last of its todo.
pub open spec fn closes(t: Todo, r: TodoResult) -> bool {
    match judgement(t, r) {
        Judgement::Cancelled => true,
        Judgement::Accepted => true,
        Judgement::Rejected => t.attempts + 1 >= MAX_ATTEMPTS,
        Judgement::Failed => t.attempts + 1 >= MAX_ATTEMPTS,
    }
}

/// Why a todo fails whose evidence was turned down too often.
pub open spec fn exhausted_reason(t: Todo, r: TodoResult) -> Seq<char> {
    match t.acceptance {
        Some(a) => if a.kind == AcceptanceKind::AnySnapshot {
            "evidence mismatched 3 times (exhausted)"@
        } else {
            "evidence mismatched 3 times (replan required)"@
        },
        None => t.rejection_reason(
            r.last_snapshot_signature@,
            r.last_obs_text@,
            r.last_snapshot_iteration,
        ),
    }
}

/// Why a todo fails whose worker failed too often.
pub open spec fn worker_reason(r: TodoResult) -> Seq<char> {
    match r.failure_reason {
        Some(reason) => reason@,
        None => "unknown failure"@,
    }
}

pub open spec fn failed_with(s: TodoStatus, reason: Seq<char>) -> bool {
    s is Failed && s->Failed_reason@ == reason
}

/// Whether `n` is the todo `t` after the report `r`.
pub open spec fn judged(t: Todo, r: TodoResult, now: u64, n: Todo) -> bool {
    &&& n.same_task(t)
    &&& match judgement(t, r) {
        Judgement::Cancelled => {
            &&& failed_with(n.status, "cancelled by user"@)
            &&& n.attempts == t.attempts
            &&& n.evidence == t.evidence
            &&& n.last_evidence_iteration == t.last_evidence_iteration
        },
        Judgement::Accepted => {
            &&& n.status is Done
            &&& n.attempts == t.attempts + 1
            &&& n.evidence is Some
            &&& n.evidence->0.worker_signature@ == r.last_snapshot_signature@
            &&& n.evidence->0.planner_signature@ == todo::signature_text(r.last_obs_text@)
            &&& n.evidence->0.iteration == r.last_snapshot_iteration
            &&& n.evidence->0.verified_at_secs == now
            &&& n.last_evidence_iteration == Some(r.last_snapshot_iteration)
        },
        Judgement::Rejected => {
            &&& n.attempts == t.attempts + 1
            &&& n.evidence == t.evidence
            &&& n.last_evidence_iteration == if t.verdict(
                r.last_snapshot_signature@,
                r.last_obs_text@,
                r.last_snapshot_iteration,
            ) is Mismatch {
                Some(r.last_snapshot_iteration)
            } else {
                t.last_evidence_iteration
            }
            &&& if closes(t, r) {
                failed_with(n.status, exhausted_reason(t, r))
            } else {
                n.status is Pending
            }
        },
        Judgement::Failed => {
            &&& n.attempts == t.attempts + 1
            &&& n.evidence == t.evidence
            &&& n.last_evidence_iteration == t.last_evidence_iteration
            &&& if closes(t, r) {
                failed_with(n.status, worker_reason(r))
            } else {
                n.status is Pending
            }
        },
    }
}

/// A todo that changed.
pub open spec fn is_state_change(e: OrchestratorEvent, task_id: Seq<char>, t: Todo) -> bool {
    &&& e is TodoStateChanged
    &&& e->TodoStateChanged_task_id@ == task_id
    &&& e->todo.same(t)
}

/// A report on `t` that was turned down, or a todo that was cancelled.
pub open spec fn is_rejection(
    e: OrchestratorEvent,
    task_id: Seq<char>,
    t: Todo,
    r: TodoResult,
) -> bool {
    &&& e is TodoRejected
    &&& e->TodoRejected_task_id@ == task_id
    &&& e->todo_id@ == t.id.0@
    &&& if judgement(t, r) is Cancelled {
        &&& e->evidence is None
        &&& e->TodoRejected_reason is Some
        &&& e->TodoRejected_reason->0@ == "cancelled by user"@
    } else {
        &&& e->evidence is Some
        &&& e->evidence->0.worker_signature@ == r.last_snapshot_signature@
        &&& e->evidence->0.planner_signature@ == todo::signature_text(r.last_obs_text@)
        &&& e->evidence->0.reason@ == t.rejection_reason(
            r.last_snapshot_signature@,
            r.last_obs_text@,
            r.last_snapshot_iteration,
        )
        &&& e->TodoRejected_reason is None
    }
}

/// What is reported of a worker's report on `t`, which became `n`.
pub open spec fn report_events(
    s: Seq<OrchestratorEvent>,
    task_id: Seq<char>,
    t: Todo,
    r: TodoResult,
    n: Todo,
) -> bool {
    let rejects = judgement(t, r) is Cancelled || judgement(t, r) is Rejected;
    &&& s.len() == (if rejects {
        1nat
    } else {
        0nat
    }) + (if closes(t, r) {
        1nat
    } else {
        0nat
    })
    &&& rejects ==> is_rejection(s[0], task_id, t, r)
    &&& closes(t, r) ==> is_state_change(s.last(), task_id, n)
}

/// The finding of a todo as it stands.
pub open spec fn finding_of(f: KeyFinding, t: Todo) -> bool {
    &&& f.id@ == t.id.0@
    &&& f.description@ == t.intent@
    &&& f.status@ == t.status.spec_name()
    &&& f.reason@ == t.status.spec_reason()
    &&& text::opt_view(f.evidence_signature) == match t.evidence {
        Some(e) => Some(e.planner_signature@),
        None => None,
    }
}

/// The finding of a todo that no worker took.
pub open spec fn failure_of(f: KeyFinding, t: Todo, reason: Seq<char>) -> bool {
    &&& f.id@ == t.id.0@
    &&& f.description@ == t.intent@
    &&& f.status@ == "failed"@
    &&& f.reason@ == reason
    &&& f.evidence_signature is None
}

/// Whether `n` is the todo `t` once it failed without a worker.
pub open spec fn gave_up(t: Todo, n: Todo, reason: Seq<char>) -> bool {
    &&& n.same_task(t)
    &&& failed_with(n.status, reason)
    &&& n.attempts == t.attempts
    &&& n.evidence == t.evidence
    &&& n.last_evidence_iteration == t.last_evidence_iteration
}

/// A todo that is done has evidence on which worker and planner agree.
pub open spec fn verified(t: Todo) -> bool {
    t.status is Done ==> {
        &&& t.evidence is Some
        &&& t.evidence->0.worker_signature@ == t.evidence->0.planner_signature@
    }
}

/// Why the last todo failed that did, where one did.
pub open spec fn last_failure(findings: Seq<KeyFinding>) -> Option<Seq<char>>
    decreases findings.len(),
{
    if findings.len() == 0 {
        None
    } else if findings.last().status@ == "failed"@ {
        Some(findings.last().reason@)
    } else {
        last_failure(findings.drop_last())
    }
}

impl Planner {
    /// The todos before the current one each have their finding, in order, and
    /// are verified where done. The task counts as done exactly while all of them
    /// are, and as failed only where the workers shut down.
    pub open spec fn settled(self) -> bool {
        &&& self.next <= self.todos@.len()
        &&& self.key_findings@.len() == self.next
        &&& forall|i: int|
            0 <= i < self.next ==> {
                &&& verified(#[trigger] self.todos@[i])
                &&& finding_of(self.key_findings@[i], self.todos@[i])
            }
        &&& self.final_status == BrowserStatus::Done <==> (forall|i: int|
            0 <= i < self.next ==> (#[trigger] self.todos@[i]).status is Done)
        &&& self.final_status == BrowserStatus::Failed ==> last_failure(self.key_findings@) == Some(
            "pool shutting down"@,
        )
    }

    /// The todos from `k` on wait for a worker.
    pub open spec fn waiting_from(self, k: int) -> bool {
        forall|i: int|
            k <= i < self.todos@.len() ==> {
                &&& (#[trigger] self.todos@[i]).status is Pending
                &&& self.todos@[i].attempts < MAX_ATTEMPTS
                &&& self.todos@[i].evidence is None
            }
    }

    pub open spec fn wf(self) -> bool {
        &&& self.settled()
        &&& self.waiting_from(self.next as int)
    }

    /// Everything but todos, findings and status is as in `old`.
    pub open spec fn same_task(self, old: Planner) -> bool {
        &&& self.task_id == old.task_id
        &&& self.todos@.len() == old.todos@.len()
        &&& forall|i: int|
            0 <= i < self.todos@.len() && i != old.next ==> #[trigger] self.todos@[i]
                == old.todos@[i]
    }

    /// The status of the task once the todo `n` is closed.
    pub open spec fn status_after(self, n: Todo) -> BrowserStatus {
        if n.status is Done {
            self.final_status
        } else {
            BrowserStatus::Partial
        }
    }
}

proof fn lemma_status_names(s: TodoStatus)
    ensures
        s.spec_name() == "done"@ <==> s is Done,
        s.spec_name() == "failed"@ <==> s is Failed,
{
    reveal_strlit("pending");
    reveal_strlit("done");
    reveal_strlit("failed");
    reveal_strlit("skipped");
    assert("pending"@[0] == 'p' && "done"@[0] == 'd' && "failed"@[0] == 'f' && "skipped"@[0]
        == 's');
}

/// Only the todos before the current one are settled.
proof fn lemma_settled(a: Planner, b: Planner)
    requires
        a.settled(),
        b.next == a.next,
        b.key_findings == a.key_findings,
        b.final_status == a.final_status,
        b.todos@.len() == a.todos@.len(),
        forall|i: int| 0 <= i < a.next ==> #[trigger] b.todos@[i] == a.todos@[i],
    ensures
        b.settled(),
{
    if a.final_status != BrowserStatus::Done {
        let i = choose|i: int| 0 <= i < a.next && !((#[trigger] a.todos@[i]).status is Done);
        assert(!(b.todos@[i].status is Done));
    }
}

// ---------------------------------------------------------------------------
// The loop
// ---------------------------------------------------------------------------

impl Planner {
    /// Decomposes a task.
    pub fn start(task: &Handoff) -> (r: Self)
        ensures
            r.wf(),
            r.task_id == task.originating_message_id,
            planner::todos_for(r.todos@, planner::work_items(*task)),
            r.next == 0,
            r.key_findings@ == Seq::<KeyFinding>::empty(),
            r.final_status == BrowserStatus::Done,
            r.last_snapshot_sig is None,
    {
        let todos = planner::decompose_to_todos(task);
        proof {
            let items = planner::work_items(*task);
            assert forall|i: int| 0 <= i < todos@.len() implies {
                &&& (#[trigger] todos@[i]).status is Pending
                &&& todos@[i].attempts < MAX_ATTEMPTS
                &&& todos@[i].evidence is None
            } by {
                assert(planner::fresh_todo(todos@[i], items[i]));
            }
        }
        Planner {
            task_id: task.originating_message_id.clone(),
            todos,
            next: 0,
            key_findings: Vec::new(),
            final_status: BrowserStatus::Done,
            last_snapshot_sig: None,
        }
    }

    /// What is made of the next todo of the plan, and what is told of it.
    pub open spec fn begins(
        self,
        shutting_down: bool,
        r: PlannerStep,
        after: Planner,
        before: Seq<OrchestratorEvent>,
        told: Seq<OrchestratorEvent>,
    ) -> bool {
        &&& after.wf()
        &&& after.task_id == self.task_id
        &&& after.same_task(self)
        &&& after.last_snapshot_sig == self.last_snapshot_sig
        &&& if self.next == self.todos@.len() {
            &&& r == PlannerStep::Finished
            &&& after == self
            &&& told == before
        } else if shutting_down {
            &&& r == PlannerStep::Next
            &&& after.next == self.next + 1
            &&& after.final_status == BrowserStatus::Failed
            &&& gave_up(
                self.todos@[self.next as int],
                after.todos@[self.next as int],
                "pool shutting down"@,
            )
            &&& after.key_findings@.len() == self.key_findings@.len() + 1
            &&& after.key_findings@.drop_last() == self.key_findings@
            &&& failure_of(
                after.key_findings@.last(),
                self.todos@[self.next as int],
                "pool shutting down"@,
            )
            &&& told == before
        } else {
            &&& r == PlannerStep::Submit
            &&& after == self
            &&& told.len() == before.len() + 1
            &&& told.drop_last() == before
            &&& is_state_change(
                told.last(),
                self.task_id@,
                self.todos@[self.next as int],
            )
        }
    }

    /// Turns to the current todo. While the workers shut down it fails unseen;
    /// otherwise it is announced and goes to a worker.
    pub fn begin_todo<S: TurnSink>(&mut self, shutting_down: bool, sink: &mut S) -> (r: PlannerStep)
        requires
            old(self).wf(),
        ensures
            old(self).begins(
                shutting_down,
                r,
                *final(self),
                old(sink).emitted(),
                final(sink).emitted(),
            ),
    {
        if self.next == self.todos.len() {
            return PlannerStep::Finished;
        }
        let i: usize = self.next;
        if shutting_down {
            self.give_up(text::owned("pool shutting down"));
            self.note_finding();
            self.final_status = BrowserStatus::Failed;
            assert(!(self.todos@[i as int].status is Done));
            return PlannerStep::Next;
        }
        sink.emit(
            OrchestratorEvent::TodoStateChanged {
                task_id: self.task_id.clone(),
                todo: self.todos[i].copy(),
            },
        );
        assert(sink.emitted().drop_last() == old(sink).emitted());
        PlannerStep::Submit
    }

    /// Fails the current todo unseen.
    fn give_up(&mut self, reason: String)
        requires
            old(self).wf(),
            old(self).next < old(self).todos@.len(),
        ensures
            final(self).settled(),
            final(self).waiting_from(final(self).next + 1),
            final(self).same_task(*old(self)),
            gave_up(
                old(self).todos@[old(self).next as int],
                final(self).todos@[old(self).next as int],
                reason@,
            ),
            *final(self) == (Planner { todos: final(self).todos, ..*old(self) }),
    {
        let i: usize = self.next;
        let mut t = self.todos[i].copy();
        t.status = TodoStatus::Failed { reason };
        self.todos.set(i, t);
        proof {
            lemma_settled(*old(self), *self);
        }
    }

    /// Notes the finding of the current todo and goes on to the next one.
    fn note_finding(&mut self)
        requires
            old(self).settled(),
            old(self).waiting_from(old(self).next + 1),
            old(self).next < old(self).todos@.len(),
            verified(old(self).todos@[old(self).next as int]),
        ensures
            final(self).wf() || !(old(self).todos@[old(self).next as int].status is Done),
            final(self).waiting_from(final(self).next as int),
            final(self).next == old(self).next + 1,
            final(self).key_findings@.len() == old(self).key_findings@.len() + 1,
            final(self).key_findings@.drop_last() == old(self).key_findings@,
            finding_of(
                final(self).key_findings@.last(),
                old(self).todos@[old(self).next as int],
            ),
            forall|i: int|
                0 <= i < final(self).next ==> {
                    &&& verified(#[trigger] final(self).todos@[i])
                    &&& finding_of(final(self).key_findings@[i], final(self).todos@[i])
                },
            last_failure(final(self).key_findings@) == (if old(self).todos@[old(
                self,
            ).next as int].status is Failed {
                Some(final(self).key_findings@.last().reason@)
            } else {
                last_failure(old(self).key_findings@)
            }),
            *final(self) == (Planner {
                next: final(self).next,
                key_findings: final(self).key_findings,
                ..*old(self)
            }),
    {
        let i: usize = self.next;
        let count: usize = self.todos.len();
        assert(i < count);
        let t = &self.todos[i];
        let finding = KeyFinding {
            id: t.id.as_text(),
            description: t.intent.clone(),
            status: text::owned(t.status.as_str()),
            reason: t.status.reason_text(),
            evidence_signature: match &t.evidence {
                Some(e) => Some(e.planner_signature.clone()),
                None => None,
            },
        };
        let ghost before = self.key_findings@;
        proof {
            lemma_status_names(t.status);
        }
        self.key_findings.push(finding);
        assert(self.key_findings@.drop_last() == before);
        self.next = i + 1;
    }

    /// Closes the current todo: it is announced once more and its finding is
    /// noted.
    fn close_todo<S: TurnSink>(&mut self, sink: &mut S)
        requires
            old(self).settled(),
            old(self).waiting_from(old(self).next + 1),
            old(self).next < old(self).todos@.len(),
            verified(old(self).todos@[old(self).next as int]),
        ensures
            final(self).wf(),
            final(self).next == old(self).next + 1,
            final(self).final_status == old(self).status_after(
                old(self).todos@[old(self).next as int],
            ),
            final(self).key_findings@.len() == old(self).key_findings@.len() + 1,
            final(self).key_findings@.drop_last() == old(self).key_findings@,
            finding_of(
                final(self).key_findings@.last(),
                old(self).todos@[old(self).next as int],
            ),
            *final(self) == (Planner {
                next: final(self).next,
                key_findings: final(self).key_findings,
                final_status: final(self).final_status,
                ..*old(self)
            }),
            final(sink).emitted().len() == old(sink).emitted().len() + 1,
            final(sink).emitted().drop_last() == old(sink).emitted(),
            is_state_change(
                final(sink).emitted().last(),
                old(self).task_id@,
                old(self).todos@[old(self).next as int],
            ),
    {
        let i: usize = self.next;
        sink.emit(
            OrchestratorEvent::TodoStateChanged {
                task_id: self.task_id.clone(),
                todo: self.todos[i].copy(),
            },
        );
        assert(sink.emitted().drop_last() == old(sink).emitted());
        let done = match self.todos[i].status {
            TodoStatus::Done => true,
            _ => false,
        };
        self.note_finding();
        if !done {
            self.final_status = BrowserStatus::Partial;
            assert(!(self.todos@[i as int].status is Done));
        }
    }

    /// What is made of a todo that no worker took, and what is told of it.
    pub open spec fn misses(
        self,
        error: Seq<char>,
        after: Planner,
        before: Seq<OrchestratorEvent>,
        told: Seq<OrchestratorEvent>,
    ) -> bool {
        &&& after.wf()
        &&& after.same_task(self)
        &&& after.next == self.next + 1
        &&& after.last_snapshot_sig == self.last_snapshot_sig
        &&& after.final_status == BrowserStatus::Partial
        &&& ({
            let t = self.todos@[self.next as int];
            let n = after.todos@[self.next as int];
            &&& gave_up(t, n, error)
            &&& after.key_findings@.len() == self.key_findings@.len() + 1
            &&& after.key_findings@.drop_last() == self.key_findings@
            &&& failure_of(after.key_findings@.last(), t, error)
            &&& told.len() == before.len() + 1
            &&& told.drop_last() == before
            &&& is_state_change(told.last(), self.task_id@, n)
        })
    }

    /// No worker took the current todo: it fails with the error, and is closed.
    pub fn submit_failed<S: TurnSink>(&mut self, error: &str, sink: &mut S)
        requires
            old(self).wf(),
            old(self).next < old(self).todos@.len(),
        ensures
            old(self).misses(error@, *final(self), old(sink).emitted(), final(sink).emitted()),
    {
        self.give_up(text::owned(error));
        self.close_todo(sink);
    }

    /// What is made of the report of a worker, and what is told of it.
    pub open spec fn takes(
        self,
        result: TodoResult,
        now_secs: u64,
        r: PlannerStep,
        after: Planner,
        before: Seq<OrchestratorEvent>,
        told: Seq<OrchestratorEvent>,
    ) -> bool {
        &&& after.wf()
        &&& after.same_task(self)
        &&& ({
            let t = self.todos@[self.next as int];
            let n = after.todos@[self.next as int];
            &&& judged(t, result, now_secs, n)
            &&& exists|s: Seq<OrchestratorEvent>|
                {
                    &&& #[trigger] report_events(s, self.task_id@, t, result, n)
                    &&& told == before + s
                }
            &&& if judgement(t, result) is Accepted {
                &&& after.last_snapshot_sig is Some
                &&& after.last_snapshot_sig->0@ == todo::signature_text(
                    result.last_obs_text@,
                )
            } else {
                after.last_snapshot_sig == self.last_snapshot_sig
            }
            &&& if closes(t, result) {
                &&& r == PlannerStep::Next
                &&& after.next == self.next + 1
                &&& after.final_status == self.status_after(n)
                &&& after.key_findings@.len() == self.key_findings@.len() + 1
                &&& after.key_findings@.drop_last() == self.key_findings@
                &&& finding_of(after.key_findings@.last(), n)
            } else {
                &&& r == PlannerStep::Submit
                &&& after.next == self.next
                &&& after.final_status == self.final_status
                &&& after.key_findings == self.key_findings
            }
        })
    }

    /// A worker reported on the current todo. An accepted report and a
    /// cancellation close it; a report that was turned down, or a failure, is
    /// tried again until the attempts are used up.
    pub fn worker_reported<S: TurnSink>(
        &mut self,
        result: TodoResult,
        now_secs: u64,
        sink: &mut S,
    ) -> (r: PlannerStep)
        requires
            old(self).wf(),
            old(self).next < old(self).todos@.len(),
            !result.cancelled && result.status is Done ==> todo::signable(result.last_obs_text@),
        ensures
            old(self).takes(
                result,
                now_secs,
                r,
                *final(self),
                old(sink).emitted(),
                final(sink).emitted(),
            ),
    {
        let i: usize = self.next;
        let mut t = self.todos[i].copy();
        let ghost start = self.todos@[i as int];
        let ghost mut events: Seq<OrchestratorEvent> = Seq::empty();
        let mut closed = true;
        let mut accepted: Option<String> = None;
        if result.cancelled {
            t.status = TodoStatus::Failed { reason: text::owned("cancelled by user") };
            let event = OrchestratorEvent::TodoRejected {
                task_id: self.task_id.clone(),
                todo_id: t.id.as_text(),
                evidence: None,
                reason: Some(text::owned("cancelled by user")),
            };
            proof {
                events = events.push(event);
            }
            sink.emit(event);
        } else {
            let claims_done = match result.status {
                TodoStatus::Done => true,
                _ => false,
            };
            if claims_done {
                let outcome = t.mark_done(
                    result.last_snapshot_signature.as_str(),
                    result.last_obs_text.as_str(),
                    result.last_snapshot_iteration,
                    now_secs,
                    MAX_ATTEMPTS,
                );
                match outcome {
                    MarkTodoOutcome::MarkedDone { evidence } => {
                        accepted = Some(evidence.planner_signature);
                    },
                    MarkTodoOutcome::StaleEvidence(mismatch) => {
                        let event = OrchestratorEvent::TodoRejected {
                            task_id: self.task_id.clone(),
                            todo_id: t.id.as_text(),
                            evidence: Some(mismatch),
                            reason: None,
                        };
                        proof {
                            events = events.push(event);
                        }
                        sink.emit(event);
                        if t.attempts >= MAX_ATTEMPTS {
                            let any = match &t.acceptance {
                                Some(a) => Some(a.kind == AcceptanceKind::AnySnapshot),
                                None => None,
                            };
                            match any {
                                Some(true) => {
                                    t.status = TodoStatus::Failed {
                                        reason: text::owned(
                                            "evidence mismatched 3 times (exhausted)",
                                        ),
                                    };
                                },
                                Some(false) => {
                                    t.status = TodoStatus::Failed {
                                        reason: text::owned(
                                            "evidence mismatched 3 times (replan required)",
                                        ),
                                    };
                                },
                                None => {},
                            }
                        } else {
                            closed = false;
                        }
                    },
                    MarkTodoOutcome::AlreadyTerminal { .. } => {
                        assert(false);
                    },
                }
            } else {
                t.attempts = t.attempts + 1;
                if t.attempts >= MAX_ATTEMPTS {
                    t.status = TodoStatus::Failed {
                        reason: match &result.failure_reason {
                            Some(reason) => reason.clone(),
                            None => text::owned("unknown failure"),
                        },
                    };
                } else {
                    closed = false;
                }
            }
        }
        assert(judged(start, result, now_secs, t));
        assert(sink.emitted() == old(sink).emitted() + events);
        let ghost n = t;
        let ghost tail = *self;
        self.todos.set(i, t);
        assert(forall|j: int|
            0 <= j < self.todos@.len() && j != i ==> #[trigger] self.todos@[j] == tail.todos@[j]);
        if accepted.is_some() {
            self.last_snapshot_sig = accepted;
        }
        proof {
            lemma_settled(tail, *self);
        }
        if closed {
            let ghost before = sink.emitted();
            self.close_todo(sink);
            proof {
                let last = sink.emitted().last();
                assert(sink.emitted() == before.push(last));
                let s = events.push(last);
                assert(report_events(s, old(self).task_id@, start, result, n));
                assert(sink.emitted() == old(sink).emitted() + s);
            }
            PlannerStep::Next
        } else {
            assert(report_events(events, old(self).task_id@, start, result, n));
            PlannerStep::Submit
        }
    }

    /// Why the task failed, where it did.
    pub open spec fn spec_failure(self) -> Seq<char> {
        if self.final_status == BrowserStatus::Failed {
            match last_failure(self.key_findings@) {
                Some(reason) => reason,
                None => Seq::empty(),
            }
        } else {
            Seq::empty()
        }
    }

    fn failure_text(&self) -> (r: String)
        ensures
            r@ == self.spec_failure(),
    {
        if self.final_status != BrowserStatus::Failed {
            return String::new();
        }
        let mut i: usize = self.key_findings.len();
        assert(self.key_findings@.take(i as int) == self.key_findings@);
        while i > 0
            invariant
                i <= self.key_findings@.len(),
                last_failure(self.key_findings@.take(i as int)) == last_failure(self.key_findings@),
                self.final_status == BrowserStatus::Failed,
            decreases i,
        {
            let f = &self.key_findings[i - 1];
            proof {
                let head = self.key_findings@.take(i as int);
                assert(head.last() == f);
                assert(head.drop_last() == self.key_findings@.take(i - 1));
            }
            if text::same(f.status.as_str(), "failed") {
                return f.reason.clone();
            }
            i -= 1;
        }
        String::new()
    }

    /// What a plan ends with.
    pub open spec fn ends(self, r: BrowserResult) -> bool {
        &&& r.status == self.final_status
        &&& r.summary@ == "Planner completed task execution."@
        &&& r.key_findings == self.key_findings
        &&& r.final_snapshot_signature == self.last_snapshot_sig
        &&& r.raw_transcript_ref is None
        &&& r.session_id@ == "planner-session"@
        &&& r.failure_reason@ == self.spec_failure()
        &&& self.final_status == BrowserStatus::Failed ==> r.failure_reason@.len() > 0
        &&& r.status == BrowserStatus::Done <==> (forall|i: int|
            0 <= i < r.key_findings@.len() ==> (#[trigger] r.key_findings@[i]).status@
                == "done"@)
        &&& r.findings@ == Seq::<ResearchFinding>::empty()
    }

    /// The result of a plan. It counts as done exactly where every finding does,
    /// and where it failed it says why.
    pub fn into_result(self) -> (r: BrowserResult)
        requires
            self.wf(),
        ensures
            self.ends(r),
    {
        proof {
            law_done_when_every_finding_is(self);
            reveal_strlit("pool shutting down");
        }
        let failure_reason = self.failure_text();
        BrowserResult {
            status: self.final_status,
            summary: text::owned("Planner completed task execution."),
            key_findings: self.key_findings,
            final_snapshot_signature: self.last_snapshot_sig,
            raw_transcript_ref: None,
            session_id: text::owned("planner-session"),
            failure_reason,
            findings: Vec::new(),
        }
    }
}

// ---------------------------------------------------------------------------
// Laws
// ---------------------------------------------------------------------------

/// No shortcut: at the end of a plan that counts as done, every todo is done on
/// evidence whose signature the planner computed to be that of the worker.
pub proof fn law_done_plans_are_verified(p: Planner, i: int)
    requires
        p.wf(),
        p.next == p.todos@.len(),
        p.final_status == BrowserStatus::Done,
        0 <= i < p.todos@.len(),
    ensures
        p.todos@[i].status is Done,
        p.todos@[i].evidence is Some,
        p.todos@[i].evidence->0.worker_signature@ == p.todos@[i].evidence->0.planner_signature@,
{
}

/// Nothing is dropped and nothing is told twice: at the end of a plan there is
/// exactly one finding for each todo, in the order of the todos, and it tells how
/// the todo stands.
pub proof fn law_one_finding_for_each_todo(p: Planner)
    requires
        p.wf(),
        p.next == p.todos@.len(),
    ensures
        p.key_findings@.len() == p.todos@.len(),
        forall|i: int|
            0 <= i < p.todos@.len() ==> {
                &&& (#[trigger] p.key_findings@[i]).id@ == p.todos@[i].id.0@
                &&& p.key_findings@[i].description@ == p.todos@[i].intent@
                &&& finding_of(p.key_findings@[i], p.todos@[i])
            },
{
    assert forall|i: int| 0 <= i < p.todos@.len() implies finding_of(
        #[trigger] p.key_findings@[i],
        p.todos@[i],
    ) by {
        assert(verified(p.todos@[i]));
    }
}

/// The task counts as done exactly while every finding says so.
pub proof fn law_done_when_every_finding_is(p: Planner)
    requires
        p.wf(),
    ensures
        p.final_status == BrowserStatus::Done <==> (forall|i: int|
            0 <= i < p.key_findings@.len() ==> (#[trigger] p.key_findings@[i]).status@ == "done"@),
{
    assert forall|i: int| 0 <= i < p.next implies ((#[trigger] p.key_findings@[i]).status@
        == "done"@ <==> p.todos@[i].status is Done) by {
        assert(verified(p.todos@[i]));
        lemma_status_names(p.todos@[i].status);
    }
    if forall|i: int|
        0 <= i < p.key_findings@.len() ==> (#[trigger] p.key_findings@[i]).status@ == "done"@ {
        assert forall|i: int| 0 <= i < p.next implies (#[trigger] p.todos@[i]).status is Done by {
            assert(p.key_findings@[i].status@ == "done"@);
        }
    }
}

/// A report whose signature is not that of the page it reports is never accepted.
pub proof fn law_wrong_signatures_are_rejected(t: Todo, r: TodoResult, now: u64, n: Todo)
    requires
        t.status is Pending,
        r.last_snapshot_signature@ != todo::signature_text(r.last_obs_text@),
        judged(t, r, now, n),
    ensures
        !(n.status is Done),
{
}

/// A todo is tried at most `MAX_ATTEMPTS` times: a report either closes it or
/// uses up one of the attempts that are left.
pub proof fn law_attempts_run_out(t: Todo, r: TodoResult, now: u64, n: Todo)
    requires
        t.attempts < MAX_ATTEMPTS,
        judged(t, r, now, n),
        !closes(t, r),
    ensures
        n.attempts == t.attempts + 1,
        n.attempts < MAX_ATTEMPTS,
{
}

/// However a todo fares, it goes to a worker at most `MAX_ATTEMPTS` times. Of the
/// states that its reports lead through, each report but the last leaves it open.
pub proof fn law_submissions_are_bounded(
    states: Seq<Todo>,
    reports: Seq<TodoResult>,
    times: Seq<u64>,
)
    requires
        states.len() == reports.len() + 1,
        times.len() == reports.len(),
        states[0].attempts == 0,
        forall|i: int|
            0 <= i < reports.len() ==> judged(
                states[i],
                #[trigger] reports[i],
                times[i],
                states[i + 1],
            ),
        forall|i: int|
            0 <= i < reports.len() - 1 ==> !closes(states[i], #[trigger] reports[i]),
    ensures
        reports.len() <= MAX_ATTEMPTS,
{
    if reports.len() > MAX_ATTEMPTS {
        assert(!closes(states[0], reports[0]) && judged(states[0], reports[0], times[0], states[1]));
        assert(!closes(states[1], reports[1]) && judged(states[1], reports[1], times[1], states[2]));
        assert(!closes(states[2], reports[2]) && judged(states[2], reports[2], times[2], states[3]));
    }
}

/// How a report is judged: one that was cancelled fails its todo; one that says done is
/// taken where its page is newer than the last evidence and bears the signature that it
/// names; any other uses up an attempt, and the third such one fails the todo.
pub proof fn law_reports_are_judged_by_their_page(t: Todo, r: TodoResult, now: u64, n: Todo)
    requires
        t.status is Pending,
        t.attempts < 3,
        judged(t, r, now, n),
    ensures
        ({
            let fresh = t.last_evidence_iteration matches Some(last) ==> r.last_snapshot_iteration
                > last;
            let signed = r.last_snapshot_signature@ == todo::signature_text(r.last_obs_text@);
            &&& n.status is Done <==> !r.cancelled && r.status is Done && fresh && signed
            &&& n.status is Failed <==> r.cancelled || (n.status !is Done && t.attempts == 2)
            &&& n.status is Pending <==> !r.cancelled && n.status !is Done && t.attempts < 2
        }),
        n.id == t.id,
        n.intent == t.intent,
        n.attempts == if r.cancelled {
            t.attempts as int
        } else {
            t.attempts + 1
        },
        n.status is Done ==> {
            &&& n.evidence is Some
            &&& n.evidence->0.worker_signature@ == r.last_snapshot_signature@
            &&& n.evidence->0.iteration == r.last_snapshot_iteration
            &&& n.evidence->0.verified_at_secs == now
            &&& n.last_evidence_iteration == Some(r.last_snapshot_iteration)
        },
        n.status is Failed && !r.cancelled && r.status !is Done ==> (r.failure_reason matches Some(
            reason,
        ) ==> n.status->Failed_reason@ == reason@),
        r.cancelled ==> n.status->Failed_reason@ == "cancelled by user"@,
{
}

/// The plan is worked through todo by todo: a report concerns the todo that is at work
/// and no other, and the plan goes on to the next one exactly when it is closed, with
/// one finding more.
pub proof fn law_plans_go_todo_by_todo(
    p: Planner,
    result: TodoResult,
    now: u64,
    r: PlannerStep,
    after: Planner,
    before: Seq<OrchestratorEvent>,
    told: Seq<OrchestratorEvent>,
)
    requires
        p.wf(),
        p.next < p.todos@.len(),
        p.takes(result, now, r, after, before, told),
    ensures
        after.todos@.len() == p.todos@.len(),
        forall|i: int|
            0 <= i < p.todos@.len() && i != p.next ==> #[trigger] after.todos@[i] == p.todos@[i],
        after.todos@[p.next as int].id == p.todos@[p.next as int].id,
        after.todos@[p.next as int].intent == p.todos@[p.next as int].intent,
        after.todos@[p.next as int].status is Pending <==> after.next == p.next,
        after.todos@[p.next as int].status !is Pending <==> after.next == p.next + 1,
        r is Submit <==> after.next == p.next,
        r is Next <==> after.next == p.next + 1,
        after.key_findings@.len() == after.next,
        after.next == p.next + 1 ==> {
            &&& after.key_findings@.drop_last() == p.key_findings@
            &&& after.key_findings@.last().id@ == p.todos@[p.next as int].id.0@
            &&& after.key_findings@.last().description@ == p.todos@[p.next as int].intent@
            &&& after.key_findings@.last().status@ == after.todos@[p.next as int].status.spec_name()
        },
        after.next == p.next ==> after.key_findings == p.key_findings,
        before.is_prefix_of(told),
{
    let t = p.todos@[p.next as int];
    let n = after.todos@[p.next as int];
    let s = choose|s: Seq<OrchestratorEvent>|
        {
            &&& #[trigger] report_events(s, p.task_id@, t, result, n)
            &&& told == before + s
        };
    assert((before + s).subrange(0, before.len() as int) =~= before);
    law_reports_are_judged_by_their_page(t, result, now, n);
}

/// A report that is turned down is told as such, with the todo and, unless it was
/// cancelled, with both signatures; a todo that is closed is told last.
pub proof fn law_verdicts_are_told(
    s: Seq<OrchestratorEvent>,
    task_id: Seq<char>,
    t: Todo,
    r: TodoResult,
    now: u64,
    n: Todo,
)
    requires
        t.status is Pending,
        t.attempts < 3,
        judged(t, r, now, n),
        report_events(s, task_id, t, r, n),
    ensures
        n.status is Done ==> s.len() == 1,
        r.cancelled || (r.status is Done && n.status !is Done) ==> {
            &&& s.len() > 0
            &&& s[0] is TodoRejected
            &&& s[0]->todo_id@ == t.id.0@
            &&& s[0]->TodoRejected_task_id@ == task_id
            &&& r.cancelled <==> s[0]->evidence is None
            &&& !r.cancelled ==> s[0]->evidence->0.worker_signature@ == r.last_snapshot_signature@
                && s[0]->evidence->0.planner_signature@ == todo::signature_text(r.last_obs_text@)
        },
        n.status !is Pending ==> {
            &&& s.len() > 0
            &&& s.last() is TodoStateChanged
            &&& s.last()->TodoStateChanged_task_id@ == task_id
            &&& s.last()->todo.same(n)
        },
        n.status is Pending && r.status !is Done ==> s.len() == 0,
{
}

/// A plan begins with a todo for each piece of work, and a todo goes to a worker as long
/// as there is one left and the workers are there; without workers it fails.
pub proof fn law_every_todo_is_begun(
    p: Planner,
    shutting_down: bool,
    r: PlannerStep,
    after: Planner,
    before: Seq<OrchestratorEvent>,
    told: Seq<OrchestratorEvent>,
)
    requires
        p.wf(),
        p.begins(shutting_down, r, after, before, told),
    ensures
        r is Finished <==> p.next == p.todos@.len(),
        r is Submit <==> p.next < p.todos@.len() && !shutting_down,
        r is Submit ==> {
            &&& after == p
            &&& told.len() == before.len() + 1
            &&& told.last() is TodoStateChanged
            &&& told.last()->todo.same(p.todos@[p.next as int])
        },
        r is Next ==> {
            &&& after.next == p.next + 1
            &&& after.todos@[p.next as int].status is Failed
            &&& after.final_status == BrowserStatus::Failed
            &&& after.key_findings@.last().id@ == p.todos@[p.next as int].id.0@
            &&& after.key_findings@.last().status@ == "failed"@
            &&& after.key_findings@.drop_last() == p.key_findings@
            &&& after.key_findings@.last().reason@.len() > 0
            &&& after.key_findings@.last().reason@
                == after.todos@[p.next as int].status->Failed_reason@
            &&& after.todos@[p.next as int].intent == p.todos@[p.next as int].intent
            &&& after.todos@[p.next as int].attempts == p.todos@[p.next as int].attempts
            &&& forall|i: int|
                0 <= i < p.todos@.len() && i != p.next ==> #[trigger] after.todos@[i]
                    == p.todos@[i]
            &&& after.last_snapshot_sig == p.last_snapshot_sig
            &&& told == before
        },
        r is Finished ==> after == p && told == before,
{
    reveal_strlit("pool shutting down");
}

/// A todo that no worker takes fails with the error, is told, and leaves the task done
/// in part at most.
pub proof fn law_todos_without_a_worker_fail(
    p: Planner,
    error: Seq<char>,
    after: Planner,
    before: Seq<OrchestratorEvent>,
    told: Seq<OrchestratorEvent>,
)
    requires
        p.wf(),
        p.next < p.todos@.len(),
        p.misses(error, after, before, told),
    ensures
        after.next == p.next + 1,
        after.todos@[p.next as int].status is Failed,
        after.todos@[p.next as int].status->Failed_reason@ == error,
        after.todos@[p.next as int].intent == p.todos@[p.next as int].intent,
        after.todos@[p.next as int].id == p.todos@[p.next as int].id,
        after.todos@[p.next as int].attempts == p.todos@[p.next as int].attempts,
        after.todos@[p.next as int].evidence == p.todos@[p.next as int].evidence,
        after.todos@[p.next as int].last_evidence_iteration
            == p.todos@[p.next as int].last_evidence_iteration,
        after.todos@[p.next as int].acceptance == p.todos@[p.next as int].acceptance,
        after.key_findings@.last().evidence_signature is None,
        after.todos@.len() == p.todos@.len(),
        forall|i: int|
            0 <= i < p.todos@.len() && i != p.next ==> #[trigger] after.todos@[i] == p.todos@[i],
        after.task_id == p.task_id,
        after.last_snapshot_sig == p.last_snapshot_sig,
        after.key_findings@.last().id@ == p.todos@[p.next as int].id.0@,
        after.key_findings@.last().description@ == p.todos@[p.next as int].intent@,
        after.key_findings@.last().reason@ == error,
        after.key_findings@.last().status@ == "failed"@,
        after.key_findings@.drop_last() == p.key_findings@,
        after.final_status == BrowserStatus::Partial,
        told.len() == before.len() + 1,
        told.last()->todo.same(after.todos@[p.next as int]),
{
}

proof fn lemma_last_failure(s: Seq<KeyFinding>, i: int)
    requires
        0 <= i < s.len(),
        s[i].status@ == "failed"@,
        forall|j: int| i < j < s.len() ==> (#[trigger] s[j]).status@ != "failed"@,
    ensures
        last_failure(s) == Some(s[i].reason@),
    decreases s.len(),
{
    if i < s.len() - 1 {
        assert(s.last() == s[s.len() - 1]);
        assert forall|j: int| i < j < s.drop_last().len() implies (
        #[trigger] s.drop_last()[j]).status@ != "failed"@ by {
            assert(s.drop_last()[j] == s[j]);
        }
        lemma_last_failure(s.drop_last(), i);
    }
}

/// The result of a plan carries every finding, and a plan that failed names the reason
/// of its last failure.
pub proof fn law_the_result_carries_every_finding(p: Planner, r: BrowserResult, i: int)
    requires
        p.wf(),
        p.ends(r),
        0 <= i < p.next,
    ensures
        r.key_findings@.len() == p.next,
        r.key_findings@[i].id@ == p.todos@[i].id.0@,
        r.key_findings@[i].description@ == p.todos@[i].intent@,
        r.key_findings@[i].status@ == p.todos@[i].status.spec_name(),
        r.key_findings@[i].reason@ == p.todos@[i].status.spec_reason(),
        r.status == BrowserStatus::Done <==> (forall|j: int|
            0 <= j < p.next ==> (#[trigger] p.todos@[j]).status is Done),
        r.status == BrowserStatus::Failed && p.key_findings@[i].status@ == "failed"@ && (forall|j: int|
            i < j < p.next ==> (#[trigger] p.key_findings@[j]).status@ != "failed"@)
            ==> r.failure_reason@ == p.key_findings@[i].reason@,
        r.final_snapshot_signature == p.last_snapshot_sig,
        r.summary@.len() > 0,
        r.status != BrowserStatus::Failed ==> r.failure_reason@.len() == 0,
{
    reveal_strlit("Planner completed task execution.");
    assert(verified(p.todos@[i]));
    if p.key_findings@[i].status@ == "failed"@ && (forall|j: int|
        i < j < p.next ==> (#[trigger] p.key_findings@[j]).status@ != "failed"@) {
        lemma_last_failure(p.key_findings@, i);
    }
}

/// A todo that fails for its third piece of evidence tells so: that any page would have
/// done, or that a new plan is needed; without a test of its own it tells what was wrong
/// with the last piece.
pub proof fn law_worn_out_todos_tell_why(t: Todo, r: TodoResult, now: u64, n: Todo)
    requires
        t.status is Pending,
        t.attempts == 2,
        judged(t, r, now, n),
        !r.cancelled,
        r.status is Done,
        n.status !is Done,
    ensures
        n.status is Failed,
        t.acceptance is Some && t.acceptance->0.kind is AnySnapshot ==> n.status->Failed_reason@
            == "evidence mismatched 3 times (exhausted)"@,
        t.acceptance is Some && t.acceptance->0.kind !is AnySnapshot ==> n.status->Failed_reason@
            == "evidence mismatched 3 times (replan required)"@,
        t.acceptance is None ==> n.status->Failed_reason@ == t.rejection_reason(
            r.last_snapshot_signature@,
            r.last_obs_text@,
            r.last_snapshot_iteration,
        ),
{
}

/// A report that is turned down leaves the evidence as it was, and a mismatch is noted
/// as the last page that was looked at.
pub proof fn law_rejected_evidence_is_not_kept(t: Todo, r: TodoResult, now: u64, n: Todo)
    requires
        t.status is Pending,
        judged(t, r, now, n),
        n.status !is Done,
    ensures
        n.evidence == t.evidence,
        r.cancelled || r.status !is Done ==> n.last_evidence_iteration == t.last_evidence_iteration,
        !r.cancelled && r.status is Done && (t.last_evidence_iteration matches Some(last)
            ==> r.last_snapshot_iteration > last) ==> n.last_evidence_iteration == Some(
            r.last_snapshot_iteration,
        ),
        n.same_task(t),
{
}

} // verus!
