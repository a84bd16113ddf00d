//! The typed contract between the chat agent and the browser agent: the task as
//! it is handed over, and the result as it is handed back.

use vstd::prelude::*;
use crate::research::{ResearchFinding, ResearchPlan, ResearchSubTask};
use crate::text;
use crate::todo::{TodoId, TodoStatus};

verus! {

/// What a worker reports of one todo.
#[derive(Debug, PartialEq, Eq)]
pub struct TodoResult {
    pub todo_id: TodoId,
    pub status: TodoStatus,
    pub last_snapshot_signature: String,
    /// The text of the page behind that signature.
    pub last_obs_text: String,
    pub last_snapshot_iteration: usize,
    pub failure_reason: Option<String>,
    /// Whether a supervisor stopped the work.
    pub cancelled: bool,
}

impl Clone for TodoResult {
    fn clone(&self) -> (r: Self)
        ensures
            r == *self,
    {
        TodoResult {
            todo_id: self.todo_id.clone(),
            status: self.status.clone(),
            last_snapshot_signature: self.last_snapshot_signature.clone(),
            last_obs_text: self.last_obs_text.clone(),
            last_snapshot_iteration: self.last_snapshot_iteration,
            failure_reason: text::opt_owned(&self.failure_reason),
            cancelled: self.cancelled,
        }
    }
}

impl TodoResult {
    pub fn success(
        todo_id: TodoId,
        last_snapshot_signature: &str,
        last_obs_text: &str,
        last_snapshot_iteration: usize,
    ) -> (r: Self)
        ensures
            r.todo_id == todo_id,
            r.status is Done,
            r.last_snapshot_signature@ == last_snapshot_signature@,
            r.last_obs_text@ == last_obs_text@,
            r.last_snapshot_iteration == last_snapshot_iteration,
            r.failure_reason is None,
            !r.cancelled,
    {
        TodoResult {
            todo_id,
            status: TodoStatus::Done,
            last_snapshot_signature: text::owned(last_snapshot_signature),
            last_obs_text: text::owned(last_obs_text),
            last_snapshot_iteration,
            failure_reason: None,
            cancelled: false,
        }
    }

    pub fn failure(
        todo_id: TodoId,
        reason: &str,
        last_snapshot_signature: &str,
        last_obs_text: &str,
        last_snapshot_iteration: usize,
    ) -> (r: Self)
        ensures
            r.todo_id == todo_id,
            r.status is Failed,
            r.status->Failed_reason@ == reason@,
            r.last_snapshot_signature@ == last_snapshot_signature@,
            r.last_obs_text@ == last_obs_text@,
            r.last_snapshot_iteration == last_snapshot_iteration,
            r.failure_reason is Some,
            r.failure_reason->0@ == reason@,
            !r.cancelled,
    {
        TodoResult {
            todo_id,
            status: TodoStatus::Failed { reason: text::owned(reason) },
            last_snapshot_signature: text::owned(last_snapshot_signature),
            last_obs_text: text::owned(last_obs_text),
            last_snapshot_iteration,
            failure_reason: Some(text::owned(reason)),
            cancelled: false,
        }
    }

    pub fn cancelled(
        todo_id: TodoId,
        last_snapshot_signature: &str,
        last_obs_text: &str,
        last_snapshot_iteration: usize,
    ) -> (r: Self)
        ensures
            r.todo_id == todo_id,
            r.status is Failed,
            r.status->Failed_reason@ == "cancelled by supervisor"@,
            r.last_snapshot_signature@ == last_snapshot_signature@,
            r.last_obs_text@ == last_obs_text@,
            r.last_snapshot_iteration == last_snapshot_iteration,
            r.failure_reason is None,
            r.cancelled,
    {
        TodoResult {
            todo_id,
            status: TodoStatus::Failed { reason: text::owned("cancelled by supervisor") },
            last_snapshot_signature: text::owned(last_snapshot_signature),
            last_obs_text: text::owned(last_obs_text),
            last_snapshot_iteration,
            failure_reason: None,
            cancelled: true,
        }
    }
}

/// One subtask that the browser agent has to work through.
#[derive(Debug, PartialEq, Eq)]
pub struct HandoffSubTask {
    /// The slug by which the model marks the subtask.
    pub id: String,
    pub description: String,
}

impl Clone for HandoffSubTask {
    fn clone(&self) -> (r: Self)
        ensures
            r == *self,
    {
        HandoffSubTask { id: self.id.clone(), description: self.description.clone() }
    }
}

impl HandoffSubTask {
    pub fn new(id: &str, description: &str) -> (r: Self)
        ensures
            r.id@ == id@,
            r.description@ == description@,
    {
        HandoffSubTask { id: text::owned(id), description: text::owned(description) }
    }
}

/// A browser task as the chat agent hands it over.
#[derive(Debug, PartialEq, Eq)]
pub struct Handoff {
    /// The task in a form that stands on its own.
    pub task_description: String,
    pub subtasks: Vec<HandoffSubTask>,
    /// What the browser agent has to honour.
    pub constraints: Vec<String>,
    /// The chat message that the task came from.
    pub originating_message_id: String,
    /// The plan over several platforms, where the task is research.
    pub research_plan: Option<ResearchPlan>,
}

/// The description of a platform's subtask:
/// `[platform]  query='..' — entry hint`, without the parts that are empty.
pub open spec fn platform_description(p: ResearchSubTask) -> Seq<char> {
    let head = "["@ + p.platform@ + "] "@;
    let with_query = if p.query@.len() == 0 {
        head
    } else {
        head + " query='"@ + p.query@ + "'"@
    };
    if p.entry_hint@.len() == 0 {
        with_query
    } else {
        with_query + " — "@ + p.entry_hint@
    }
}

/// The subtasks of a research task: one for each platform, in order.
pub open spec fn platform_subtasks(subtasks: Seq<HandoffSubTask>, plan: ResearchPlan) -> bool {
    &&& subtasks.len() == plan.platforms@.len()
    &&& forall|i: int|
        0 <= i < subtasks.len() ==> {
            &&& (#[trigger] subtasks[i]).id == plan.platforms@[i].id
            &&& subtasks[i].description@ == platform_description(plan.platforms@[i])
        }
}

fn describe_platform(p: &ResearchSubTask) -> (r: String)
    ensures
        r@ == platform_description(*p),
{
    let mut out = text::owned("[");
    out.append(p.platform.as_str());
    out.append("] ");
    if !p.query.as_str().is_empty() {
        out.append(" query='");
        out.append(p.query.as_str());
        out.append("'");
    }
    if !p.entry_hint.as_str().is_empty() {
        out.append(" — ");
        out.append(p.entry_hint.as_str());
    }
    out
}

impl Handoff {
    /// A task alone, with no subtasks, constraints or research plan.
    pub fn bare(task: &str, originating_message_id: &str) -> (r: Self)
        ensures
            r.task_description@ == task@,
            r.subtasks@ == Seq::<HandoffSubTask>::empty(),
            r.constraints@ == Seq::<String>::empty(),
            r.originating_message_id@ == originating_message_id@,
            r.research_plan is None,
    {
        Handoff {
            task_description: text::owned(task),
            subtasks: Vec::new(),
            constraints: Vec::new(),
            originating_message_id: text::owned(originating_message_id),
            research_plan: None,
        }
    }

    /// A research task, with one subtask for each platform of the plan.
    pub fn with_research_plan(
        task: &str,
        originating_message_id: &str,
        plan: ResearchPlan,
    ) -> (r: Self)
        ensures
            r.task_description@ == task@,
            platform_subtasks(r.subtasks@, plan),
            r.constraints@ == Seq::<String>::empty(),
            r.originating_message_id@ == originating_message_id@,
            r.research_plan == Some(plan),
    {
        let mut subtasks: Vec<HandoffSubTask> = Vec::new();
        let mut i: usize = 0;
        while i < plan.platforms.len()
            invariant
                i <= plan.platforms@.len(),
                subtasks@.len() == i,
                forall|j: int|
                    0 <= j < i ==> {
                        &&& (#[trigger] subtasks@[j]).id == plan.platforms@[j].id
                        &&& subtasks@[j].description@ == platform_description(plan.platforms@[j])
                    },
            decreases plan.platforms@.len() - i,
        {
            subtasks.push(
                HandoffSubTask {
                    id: plan.platforms[i].id.clone(),
                    description: describe_platform(&plan.platforms[i]),
                },
            );
            i += 1;
        }
        Handoff {
            task_description: text::owned(task),
            subtasks,
            constraints: Vec::new(),
            originating_message_id: text::owned(originating_message_id),
            research_plan: Some(plan),
        }
    }
}

impl Handoff {
    /// The same handoff, field by field.
    pub open spec fn same(self, other: Handoff) -> bool {
        &&& self.task_description == other.task_description
        &&& self.subtasks@ == other.subtasks@
        &&& self.constraints@ == other.constraints@
        &&& self.originating_message_id == other.originating_message_id
        &&& match (self.research_plan, other.research_plan) {
            (Some(a), Some(b)) => a.same(b),
            (None, None) => true,
            _ => false,
        }
    }
}

impl Clone for Handoff {
    fn clone(&self) -> (r: Self)
        ensures
            r.same(*self),
    {
        let mut subtasks: Vec<HandoffSubTask> = Vec::new();
        let mut i: usize = 0;
        while i < self.subtasks.len()
            invariant
                i <= self.subtasks@.len(),
                subtasks@ == self.subtasks@.take(i as int),
            decreases self.subtasks@.len() - i,
        {
            subtasks.push(self.subtasks[i].clone());
            i += 1;
            assert(self.subtasks@.take(i as int) == self.subtasks@.take(i - 1).push(
                self.subtasks@[i - 1],
            ));
        }
        assert(self.subtasks@.take(self.subtasks@.len() as int) == self.subtasks@);
        Handoff {
            task_description: self.task_description.clone(),
            subtasks,
            constraints: text::copy_list(&self.constraints),
            originating_message_id: self.originating_message_id.clone(),
            research_plan: match &self.research_plan {
                Some(p) => Some(p.clone()),
                None => None,
            },
        }
    }
}

/// How a browser task ended.
#[derive(Debug, Clone, Copy, PartialEq, Eq, Structural)]
pub enum BrowserStatus {
    /// Everything that was declared is done.
    Done,
    /// Some of it is done.
    Partial,
    /// The task could not be completed at all.
    Failed,
}

impl BrowserStatus {
    pub open spec fn spec_name(self) -> Seq<char> {
        match self {
            BrowserStatus::Done => "done"@,
            BrowserStatus::Partial => "partial"@,
            BrowserStatus::Failed => "failed"@,
        }
    }

    /// The status in the `Debug` format.
    pub open spec fn spec_debug(self) -> Seq<char> {
        match self {
            BrowserStatus::Done => "Done"@,
            BrowserStatus::Partial => "Partial"@,
            BrowserStatus::Failed => "Failed"@,
        }
    }

    /// The status in the `Debug` format.
    pub fn debug_text(&self) -> (r: &'static str)
        ensures
            r@ == self.spec_debug(),
    {
        match self {
            BrowserStatus::Done => "Done",
            BrowserStatus::Partial => "Partial",
            BrowserStatus::Failed => "Failed",
        }
    }

    pub fn as_str(&self) -> (r: &'static str)
        ensures
            r@ == self.spec_name(),
    {
        match self {
            BrowserStatus::Done => "done",
            BrowserStatus::Partial => "partial",
            BrowserStatus::Failed => "failed",
        }
    }
}

/// The outcome of one subtask.
#[derive(Debug, PartialEq, Eq)]
pub struct KeyFinding {
    pub id: String,
    pub description: String,
    /// `done`, `skipped`, `failed`, `exhausted` or `pending`.
    pub status: String,
    /// Why the subtask was not done, empty where it was.
    pub reason: String,
    /// Signature of the snapshot that confirmed the subtask.
    pub evidence_signature: Option<String>,
}

impl Clone for KeyFinding {
    fn clone(&self) -> (r: Self)
        ensures
            r == *self,
    {
        KeyFinding {
            id: self.id.clone(),
            description: self.description.clone(),
            status: self.status.clone(),
            reason: self.reason.clone(),
            evidence_signature: text::opt_owned(&self.evidence_signature),
        }
    }
}

/// What the browser agent hands back.
#[derive(Debug, PartialEq, Eq)]
pub struct BrowserResult {
    pub status: BrowserStatus,
    /// One paragraph for the user.
    pub summary: String,
    /// The outcome of each subtask, empty where none was declared.
    pub key_findings: Vec<KeyFinding>,
    pub final_snapshot_signature: Option<String>,
    /// Where the transcript of the session lies.
    pub raw_transcript_ref: Option<String>,
    pub session_id: String,
    /// Why the task failed, empty where it did not.
    pub failure_reason: String,
    /// What research turned up.
    pub findings: Vec<ResearchFinding>,
}

impl BrowserResult {
    /// The same result, field by field.
    pub open spec fn same(self, other: BrowserResult) -> bool {
        &&& self.status == other.status
        &&& self.summary == other.summary
        &&& self.key_findings@ == other.key_findings@
        &&& self.final_snapshot_signature == other.final_snapshot_signature
        &&& self.raw_transcript_ref == other.raw_transcript_ref
        &&& self.session_id == other.session_id
        &&& self.failure_reason == other.failure_reason
        &&& self.findings@ == other.findings@
    }

    /// A failed result with its reason.
    pub fn failure(
        session_id: &str,
        reason: &str,
        raw_transcript_ref: Option<String>,
    ) -> (r: Self)
        ensures
            r.status == BrowserStatus::Failed,
            r.summary@ == Seq::<char>::empty(),
            r.key_findings@ == Seq::<KeyFinding>::empty(),
            r.final_snapshot_signature is None,
            r.raw_transcript_ref == raw_transcript_ref,
            r.session_id@ == session_id@,
            r.failure_reason@ == reason@,
            r.findings@ == Seq::<ResearchFinding>::empty(),
    {
        BrowserResult {
            status: BrowserStatus::Failed,
            summary: String::new(),
            key_findings: Vec::new(),
            final_snapshot_signature: None,
            raw_transcript_ref,
            session_id: text::owned(session_id),
            failure_reason: text::owned(reason),
            findings: Vec::new(),
        }
    }

    /// A successful result.
    pub fn done(
        session_id: &str,
        summary: &str,
        key_findings: Vec<KeyFinding>,
        final_snapshot_signature: Option<String>,
        raw_transcript_ref: Option<String>,
    ) -> (r: Self)
        ensures
            r.status == BrowserStatus::Done,
            r.summary@ == summary@,
            r.key_findings == key_findings,
            r.final_snapshot_signature == final_snapshot_signature,
            r.raw_transcript_ref == raw_transcript_ref,
            r.session_id@ == session_id@,
            r.failure_reason@ == Seq::<char>::empty(),
            r.findings@ == Seq::<ResearchFinding>::empty(),
    {
        BrowserResult {
            status: BrowserStatus::Done,
            summary: text::owned(summary),
            key_findings,
            final_snapshot_signature,
            raw_transcript_ref,
            session_id: text::owned(session_id),
            failure_reason: String::new(),
            findings: Vec::new(),
        }
    }

    /// A successful research result with its findings.
    pub fn done_research(
        session_id: &str,
        summary: &str,
        key_findings: Vec<KeyFinding>,
        final_snapshot_signature: Option<String>,
        raw_transcript_ref: Option<String>,
        findings: Vec<ResearchFinding>,
    ) -> (r: Self)
        ensures
            r.status == BrowserStatus::Done,
            r.summary@ == summary@,
            r.key_findings == key_findings,
            r.final_snapshot_signature == final_snapshot_signature,
            r.raw_transcript_ref == raw_transcript_ref,
            r.session_id@ == session_id@,
            r.failure_reason@ == Seq::<char>::empty(),
            r.findings == findings,
    {
        BrowserResult {
            status: BrowserStatus::Done,
            summary: text::owned(summary),
            key_findings,
            final_snapshot_signature,
            raw_transcript_ref,
            session_id: text::owned(session_id),
            failure_reason: String::new(),
            findings,
        }
    }
}

impl Clone for BrowserResult {
    fn clone(&self) -> (r: Self)
        ensures
            r.same(*self),
    {
        let mut key_findings: Vec<KeyFinding> = Vec::new();
        let mut i: usize = 0;
        while i < self.key_findings.len()
            invariant
                i <= self.key_findings@.len(),
                key_findings@ == self.key_findings@.take(i as int),
            decreases self.key_findings@.len() - i,
        {
            key_findings.push(self.key_findings[i].clone());
            i += 1;
            assert(self.key_findings@.take(i as int) == self.key_findings@.take(i - 1).push(
                self.key_findings@[i - 1],
            ));
        }
        let mut findings: Vec<ResearchFinding> = Vec::new();
        let mut k: usize = 0;
        while k < self.findings.len()
            invariant
                k <= self.findings@.len(),
                findings@ == self.findings@.take(k as int),
            decreases self.findings@.len() - k,
        {
            findings.push(self.findings[k].clone());
            k += 1;
            assert(self.findings@.take(k as int) == self.findings@.take(k - 1).push(
                self.findings@[k - 1],
            ));
        }
        assert(self.key_findings@.take(self.key_findings@.len() as int) == self.key_findings@);
        assert(self.findings@.take(self.findings@.len() as int) == self.findings@);
        BrowserResult {
            status: self.status,
            summary: self.summary.clone(),
            key_findings,
            final_snapshot_signature: text::opt_owned(&self.final_snapshot_signature),
            raw_transcript_ref: text::opt_owned(&self.raw_transcript_ref),
            session_id: self.session_id.clone(),
            failure_reason: self.failure_reason.clone(),
            findings,
        }
    }
}

// ---------------------------------------------------------------------------
// Laws
// ---------------------------------------------------------------------------

/// The subtask of a platform names the platform, what is looked for there and where to
/// begin, as far as they are given.
pub proof fn law_platform_subtasks_name_what_is_looked_for(p: ResearchSubTask)
    ensures
        text::occurs(platform_description(p), "["@ + p.platform@ + "] "@),
        p.query@.len() > 0 ==> text::occurs(platform_description(p), " query='"@ + p.query@),
        p.entry_hint@.len() > 0 ==> text::occurs(platform_description(p), " — "@ + p.entry_hint@),
{
    broadcast use text::group_occurs;

}

/// Every platform of a research plan is a subtask of its own, in the order of the plan.
pub proof fn law_every_platform_is_a_subtask(
    subtasks: Seq<HandoffSubTask>,
    plan: ResearchPlan,
    i: int,
)
    requires
        platform_subtasks(subtasks, plan),
        0 <= i < plan.platforms@.len(),
    ensures
        subtasks.len() == plan.platforms@.len(),
        subtasks[i].id@ == plan.platforms@[i].id@,
        text::occurs(subtasks[i].description@, plan.platforms@[i].platform@),
        text::occurs(subtasks[i].description@, plan.platforms@[i].query@),
        text::occurs(subtasks[i].description@, plan.platforms@[i].entry_hint@),
{
    broadcast use text::group_occurs;

    let p = plan.platforms@[i];
    let w = platform_description(p);
    assert(subtasks[i].description@ == w);
    assert(w.subrange(0, 0) =~= Seq::<char>::empty());
    if p.query@.len() == 0 {
        assert(p.query@ =~= Seq::<char>::empty());
        assert(text::occurs_at(w, p.query@, 0));
    }
    if p.entry_hint@.len() == 0 {
        assert(p.entry_hint@ =~= Seq::<char>::empty());
        assert(text::occurs_at(w, p.entry_hint@, 0));
    }
}

/// The statuses of a result have names of their own.
pub proof fn law_result_statuses_are_told_by_name(a: BrowserStatus, b: BrowserStatus)
    ensures
        a.spec_name() == b.spec_name() <==> a == b,
        a.spec_debug() == b.spec_debug() <==> a == b,
        text::ascii_lowercase(a.spec_debug()) == a.spec_name(),
{
    reveal_strlit("done");
    reveal_strlit("partial");
    reveal_strlit("failed");
    reveal_strlit("Done");
    reveal_strlit("Partial");
    reveal_strlit("Failed");
    let x = a.spec_name();
    let y = b.spec_name();
    assert(x == y ==> x[0] == y[0]);
    assert(a.spec_debug() == b.spec_debug() ==> a.spec_debug()[0] == b.spec_debug()[0]);
    assert(text::ascii_lowercase(a.spec_debug()) =~= a.spec_name());
}

/// A copy of a result or of a task has all that it has.
pub proof fn law_copies_are_whole(a: BrowserResult, b: BrowserResult, g: Handoff, h: Handoff)
    requires
        a.same(b),
        g.same(h),
    ensures
        a.status == b.status,
        a.summary == b.summary,
        a.key_findings@ == b.key_findings@,
        a.findings@ == b.findings@,
        a.failure_reason == b.failure_reason,
        a.session_id == b.session_id,
        a.final_snapshot_signature == b.final_snapshot_signature,
        a.raw_transcript_ref == b.raw_transcript_ref,
        g.task_description == h.task_description,
        g.subtasks@ == h.subtasks@,
        g.constraints@ == h.constraints@,
        g.originating_message_id == h.originating_message_id,
        g.research_plan is Some <==> h.research_plan is Some,
{
}

} // verus!
