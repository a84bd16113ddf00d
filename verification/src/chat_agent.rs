//! The conversational half of the agent: it builds the handoff of a browser task
//! and phrases the result of one as a chat reply.
//!
//! Replies are templated from the typed result. A reply is never empty.

use vstd::prelude::*;
use crate::classify_cache::ClassifyCache;
use crate::clock;
use crate::config::ProviderConfig;
use crate::handoff::{BrowserResult, BrowserStatus, Handoff, HandoffSubTask, KeyFinding};
use crate::handoff;
use crate::planner;
use crate::research::{ResearchFinding, ResearchPlan, ResearchSubTask};
use crate::router::{ConversationMessage, Intent};
use crate::text;

verus! {

/// The system prompt of the chat agent.
pub const CHAT_AGENT_SYSTEM_PROMPT: &'static str = "\
You are the conversational half of mew. You talk directly to the user.

You have two jobs:

1. Decide what the user wants. If they are asking a question or
   making small talk, reply conversationally. If they want to
   *do* something in a browser (visit a page, send a message,
   click something, search for information), classify the request
   as a browser task and rephrase it into a clear, standalone
   task description the browser agent can execute. Resolve any
   ambiguous pronouns ('it', 'there', 'them') using the
   conversation history before handing off.

2. After a browser task finishes, turn the browser agent's typed
   result into a single concise chat reply for the user. You do
   not need to call any tools for this — the browser agent has
   already done the work and produced a structured result with a
   summary, a list of findings, and a status. Your job is to
   phrase that result as a natural-language message.

Keep replies short. One or two sentences is usually right.
Do not include raw JSON, tool call traces, or per-iteration
logs in the user-facing reply — those live in the transcript
panel, not the chat.";

// ---------------------------------------------------------------------------
// The text of replies
// ---------------------------------------------------------------------------

/// How many findings have the given status.
pub open spec fn count_status(s: Seq<KeyFinding>, status: Seq<char>) -> nat
    decreases s.len(),
{
    if s.len() == 0 {
        0
    } else {
        count_status(s.drop_last(), status) + if s.last().status@ == status {
            1nat
        } else {
            0nat
        }
    }
}

/// A finding in the list of what is outstanding: `id: description [status]`, and
/// the reason where there is one.
pub open spec fn issue_text(f: KeyFinding) -> Seq<char> {
    let head = f.id@ + ": "@ + f.description@ + " ["@ + f.status@ + "]"@;
    if f.reason@.len() == 0 {
        head
    } else {
        head + " ("@ + f.reason@ + ")"@
    }
}

/// Whether a finding is named in a partial reply.
pub open spec fn is_issue(f: KeyFinding) -> bool {
    f.status@ == "failed"@ || f.status@ == "skipped"@ || f.status@ == "pending"@
}

/// Whether a finding is named in a research reply.
pub open spec fn is_shortfall(f: KeyFinding) -> bool {
    f.status@ == "exhausted"@ || f.status@ == "failed"@ || f.status@ == "skipped"@
}

/// The texts of the findings that `keep` picks.
pub open spec fn issue_texts(s: Seq<KeyFinding>, keep: spec_fn(KeyFinding) -> bool) -> Seq<
    Seq<char>,
> {
    s.filter(keep).map_values(|f: KeyFinding| issue_text(f))
}

/// `text`, or `otherwise` where it is blank; without white space around it.
pub open spec fn or_else(text: Seq<char>, otherwise: Seq<char>) -> Seq<char> {
    if text::trimmed(text).len() == 0 {
        otherwise
    } else {
        text::trimmed(text)
    }
}

/// The reply to a completed task.
pub open spec fn done_text(r: BrowserResult) -> Seq<char> {
    let head = or_else(r.summary@, "The browser task completed."@);
    if r.key_findings@.len() > 0 {
        head + " ("@ + text::decimal(count_status(r.key_findings@, "done"@)) + " of "@
            + text::decimal(r.key_findings@.len()) + " sub-tasks completed.)"@
    } else {
        head
    }
}

/// The reply to a partly completed task, with what is outstanding.
pub open spec fn partial_text(r: BrowserResult) -> Seq<char> {
    let head = or_else(r.summary@, "The browser task partially completed."@);
    let issues = issue_texts(r.key_findings@, |f: KeyFinding| is_issue(f));
    if issues.len() == 0 {
        head
    } else {
        head + " Outstanding:"@ + text::joined(issues, " "@) + "."@
    }
}

/// The reply to a failed task, with its reason.
pub open spec fn failed_text(r: BrowserResult) -> Seq<char> {
    let reason = or_else(r.failure_reason@, "I couldn't complete the task."@);
    if text::trimmed(r.summary@).len() == 0 {
        reason
    } else {
        text::trimmed(r.summary@) + " ("@ + reason + ")"@
    }
}

/// The platforms on which something was found.
pub open spec fn platforms(findings: Seq<ResearchFinding>) -> Seq<Seq<char>> {
    findings.map_values(|f: ResearchFinding| f.platform@)
}

pub open spec fn plural(n: nat) -> Seq<char> {
    if n == 1 {
        ""@
    } else {
        "s"@
    }
}

/// `Found 2 results across 1 platform.`
pub open spec fn found_text(findings: Seq<ResearchFinding>) -> Seq<char> {
    let n = findings.len();
    let m = platforms(findings).to_set().len();
    "Found "@ + text::decimal(n) + " result"@ + plural(n) + " across "@ + text::decimal(m)
        + " platform"@ + plural(m) + "."@
}

/// The first `n` findings, one on each line, counted from one.
pub open spec fn finding_rows(findings: Seq<ResearchFinding>, n: nat) -> Seq<char>
    decreases n,
{
    if n == 0 {
        Seq::empty()
    } else {
        finding_rows(findings, (n - 1) as nat) + ("  "@ + text::decimal(n) + ". "@
            + findings[n - 1].spec_one_line() + "\n"@)
    }
}

/// The reply to a research task: what was found, why it failed where it did, and
/// what is outstanding.
pub open spec fn research_text(r: BrowserResult) -> Seq<char> {
    let head = (if text::trimmed(r.summary@).len() == 0 {
        found_text(r.findings@)
    } else {
        text::trimmed(r.summary@)
    }) + "\n"@ + finding_rows(r.findings@, r.findings@.len());
    let with_reason = if r.status == BrowserStatus::Failed && text::trimmed(
        r.failure_reason@,
    ).len() > 0 {
        head + "  Failed: "@ + text::trimmed(r.failure_reason@) + "\n"@
    } else {
        head
    };
    let shortfalls = issue_texts(r.key_findings@, |f: KeyFinding| is_shortfall(f));
    if r.findings@.len() == 0 {
        "no findings to report."@
    } else {
        text::trimmed_end(
            if shortfalls.len() == 0 {
                with_reason
            } else {
                with_reason + "  Outstanding:"@ + text::joined(shortfalls, " "@) + "."@
            },
        )
    }
}

/// `id status`, and the reason where there is one.
pub open spec fn status_text(f: KeyFinding) -> Seq<char> {
    let head = f.id@ + " "@ + f.status@;
    if f.reason@.len() == 0 {
        head
    } else {
        head + " ("@ + f.reason@ + ")"@
    }
}

/// The reply to a task that the planner ran: the status of each of its todos.
pub open spec fn planner_text(s: Seq<KeyFinding>) -> Seq<char> {
    text::joined(s.map_values(|f: KeyFinding| status_text(f)), " · "@)
}

/// The reply to a browser task.
pub open spec fn reply_text(planner_enabled: bool, r: BrowserResult) -> Seq<char> {
    if planner_enabled && r.key_findings@.len() > 0 {
        planner_text(r.key_findings@)
    } else if planner_enabled && r.status == BrowserStatus::Failed {
        failed_text(r)
    } else if r.findings@.len() > 0 {
        research_text(r)
    } else {
        match r.status {
            BrowserStatus::Done => done_text(r),
            BrowserStatus::Partial => partial_text(r),
            BrowserStatus::Failed => failed_text(r),
        }
    }
}

// ---------------------------------------------------------------------------
// Rendering
// ---------------------------------------------------------------------------

fn issue(f: &KeyFinding) -> (r: String)
    ensures
        r@ == issue_text(*f),
{
    let mut out = f.id.clone();
    out.append(": ");
    out.append(f.description.as_str());
    out.append(" [");
    out.append(f.status.as_str());
    out.append("]");
    if !f.reason.as_str().is_empty() {
        out.append(" (");
        out.append(f.reason.as_str());
        out.append(")");
    }
    out
}

/// The texts of the findings with one of the given statuses.
fn issues(s: &Vec<KeyFinding>, a: &str, b: &str, c: &str) -> (r: Vec<String>)
    ensures
        text::views(r@) == issue_texts(
            s@,
            |f: KeyFinding| f.status@ == a@ || f.status@ == b@ || f.status@ == c@,
        ),
{
    let ghost keep = |f: KeyFinding| f.status@ == a@ || f.status@ == b@ || f.status@ == c@;
    let mut out: Vec<String> = Vec::new();
    let mut i: usize = 0;
    proof {
        reveal(Seq::filter);
        assert(issue_texts(s@.take(0), keep) == Seq::<Seq<char>>::empty());
    }
    while i < s.len()
        invariant
            i <= s@.len(),
            keep == (|f: KeyFinding| f.status@ == a@ || f.status@ == b@ || f.status@ == c@),
            text::views(out@) == issue_texts(s@.take(i as int), keep),
        decreases s@.len() - i,
    {
        let ghost before = out@;
        proof {
            reveal(Seq::filter);
            assert(s@.take(i + 1).drop_last() == s@.take(i as int));
            assert(s@.take(i + 1).last() == s@[i as int]);
        }
        let status = s[i].status.as_str();
        if text::same(status, a) || text::same(status, b) || text::same(status, c) {
            out.push(issue(&s[i]));
            assert(text::views(out@) == text::views(before).push(issue_text(s@[i as int])));
            assert(issue_texts(s@.take(i + 1), keep) == issue_texts(s@.take(i as int), keep).push(
                issue_text(s@[i as int]),
            ));
        }
        i += 1;
    }
    assert(s@.take(s@.len() as int) == s@);
    out
}

fn text_or(t: &str, otherwise: &str) -> (r: String)
    ensures
        r@ == or_else(t@, otherwise@),
{
    let trimmed = text::trim(t);
    if trimmed.is_empty() {
        text::owned(otherwise)
    } else {
        text::owned(trimmed)
    }
}

fn done_count(s: &Vec<KeyFinding>) -> (r: usize)
    ensures
        r == count_status(s@, "done"@),
{
    let mut n: usize = 0;
    let mut i: usize = 0;
    while i < s.len()
        invariant
            i <= s@.len(),
            n <= i,
            n == count_status(s@.take(i as int), "done"@),
        decreases s@.len() - i,
    {
        assert(s@.take(i + 1).drop_last() == s@.take(i as int));
        assert(s@.take(i + 1).last() == s@[i as int]);
        if text::same(s[i].status.as_str(), "done") {
            n += 1;
        }
        i += 1;
    }
    assert(s@.take(s@.len() as int) == s@);
    n
}

/// Phrases a completed task.
pub fn synthesize_done(result: &BrowserResult) -> (r: String)
    ensures
        r@ == done_text(*result),
{
    let mut out = text_or(result.summary.as_str(), "The browser task completed.");
    let total: usize = result.key_findings.len();
    if total > 0 {
        out.append(" (");
        out.append(text::decimal_of(done_count(&result.key_findings) as u64).as_str());
        out.append(" of ");
        out.append(text::decimal_of(total as u64).as_str());
        out.append(" sub-tasks completed.)");
    }
    out
}

/// Phrases a partly completed task.
pub fn synthesize_partial(result: &BrowserResult) -> (r: String)
    ensures
        r@ == partial_text(*result),
{
    let mut out = text_or(result.summary.as_str(), "The browser task partially completed.");
    let rows = issues(&result.key_findings, "failed", "skipped", "pending");
    proof {
        let a = |f: KeyFinding|
            f.status@ == "failed"@ || f.status@ == "skipped"@ || f.status@ == "pending"@;
        let b = |f: KeyFinding| is_issue(f);
        assert(a =~= b);
        assert(text::views(rows@).len() == rows@.len());
    }
    if rows.len() > 0 {
        out.append(" Outstanding:");
        out.append(text::join(&rows, " ").as_str());
        out.append(".");
    }
    out
}

/// Phrases a failed task.
pub fn synthesize_failed(result: &BrowserResult) -> (r: String)
    ensures
        r@ == failed_text(*result),
{
    let reason = text_or(result.failure_reason.as_str(), "I couldn't complete the task.");
    let summary = text::trim(result.summary.as_str());
    if summary.is_empty() {
        reason
    } else {
        let mut out = text::owned(summary);
        out.append(" (");
        out.append(reason.as_str());
        out.append(")");
        out
    }
}

/// The number of platforms on which something was found.
fn count_platforms(findings: &Vec<ResearchFinding>) -> (r: usize)
    ensures
        r == platforms(findings@).to_set().len(),
{
    let mut seen: Vec<String> = Vec::new();
    let mut i: usize = 0;
    while i < findings.len()
        invariant
            i <= findings@.len(),
            text::views(seen@).no_duplicates(),
            text::views(seen@).to_set() == platforms(findings@.take(i as int)).to_set(),
        decreases findings@.len() - i,
    {
        let name = &findings[i].platform;
        let ghost before = text::views(seen@);
        let ghost known = platforms(findings@.take(i as int));
        let mut k: usize = 0;
        let mut found = false;
        while k < seen.len() && !found
            invariant
                k <= seen@.len(),
                before == text::views(seen@),
                found ==> before.contains(name@),
                !found ==> forall|j: int| 0 <= j < k ==> before[j] != name@,
            decreases seen@.len() - k + (if found {
                0int
            } else {
                1int
            }),
        {
            if text::same(seen[k].as_str(), name.as_str()) {
                assert(before[k as int] == name@);
                found = true;
            } else {
                k += 1;
            }
        }
        proof {
            let next = platforms(findings@.take(i + 1));
            assert(next == known.push(name@));
            assert(next.to_set() == known.to_set().insert(name@)) by {
                assert forall|x: Seq<char>| #[trigger]
                    next.to_set().contains(x) == known.to_set().insert(name@).contains(x) by {
                    if next.to_set().contains(x) {
                        let j = choose|j: int| 0 <= j < next.len() && next[j] == x;
                        if j < known.len() {
                            assert(known[j] == x);
                        }
                    }
                    if known.to_set().contains(x) {
                        let j = choose|j: int| 0 <= j < known.len() && known[j] == x;
                        assert(next[j] == x);
                    }
                    if x == name@ {
                        assert(next[known.len() as int] == x);
                    }
                }
            }
        }
        if found {
            assert(before.to_set().contains(name@));
            assert(known.to_set().insert(name@) == known.to_set());
        } else {
            seen.push(name.clone());
            proof {
                let after = text::views(seen@);
                assert(after == before.push(name@));
                assert(after.to_set() == before.to_set().insert(name@)) by {
                    assert forall|x: Seq<char>| #[trigger]
                        after.to_set().contains(x) == before.to_set().insert(name@).contains(x) by {
                        if after.to_set().contains(x) {
                            let j = choose|j: int| 0 <= j < after.len() && after[j] == x;
                            if j < before.len() {
                                assert(before[j] == x);
                            }
                        }
                        if before.to_set().contains(x) {
                            let j = choose|j: int| 0 <= j < before.len() && before[j] == x;
                            assert(after[j] == x);
                        }
                        if x == name@ {
                            assert(after[before.len() as int] == x);
                        }
                    }
                }
            }
        }
        i += 1;
    }
    proof {
        assert(findings@.take(findings@.len() as int) == findings@);
        text::views(seen@).unique_seq_to_set();
    }
    seen.len()
}

fn found(findings: &Vec<ResearchFinding>) -> (r: String)
    ensures
        r@ == found_text(findings@),
{
    let n: usize = findings.len();
    let m: usize = count_platforms(findings);
    let mut out = text::owned("Found ");
    out.append(text::decimal_of(n as u64).as_str());
    out.append(" result");
    out.append(
        if n == 1 {
            ""
        } else {
            "s"
        },
    );
    out.append(" across ");
    out.append(text::decimal_of(m as u64).as_str());
    out.append(" platform");
    out.append(
        if m == 1 {
            ""
        } else {
            "s"
        },
    );
    out.append(".");
    out
}

/// Phrases a research task: one row for each finding.
pub fn synthesize_research(result: &BrowserResult) -> (r: String)
    ensures
        r@ == research_text(*result),
{
    if result.findings.len() == 0 {
        return text::owned("no findings to report.");
    }
    let summary = text::trim(result.summary.as_str());
    let mut out = if summary.is_empty() {
        found(&result.findings)
    } else {
        text::owned(summary)
    };
    out.append("\n");
    let mut rows = String::new();
    let mut i: usize = 0;
    while i < result.findings.len()
        invariant
            i <= result.findings@.len(),
            rows@ == finding_rows(result.findings@, i as nat),
        decreases result.findings@.len() - i,
    {
        let line = result.findings[i].one_line();
        i += 1;
        let mut row = text::owned("  ");
        row.append(text::decimal_of(i as u64).as_str());
        row.append(". ");
        row.append(line.as_str());
        row.append("\n");
        rows.append(row.as_str());
    }
    out.append(rows.as_str());
    let reason = text::trim(result.failure_reason.as_str());
    if result.status == BrowserStatus::Failed && !reason.is_empty() {
        out.append("  Failed: ");
        out.append(reason);
        out.append("\n");
    }
    let short = issues(&result.key_findings, "exhausted", "failed", "skipped");
    proof {
        let a = |f: KeyFinding|
            f.status@ == "exhausted"@ || f.status@ == "failed"@ || f.status@ == "skipped"@;
        let b = |f: KeyFinding| is_shortfall(f);
        assert(a =~= b);
        assert(text::views(short@).len() == short@.len());
    }
    if short.len() > 0 {
        out.append("  Outstanding:");
        out.append(text::join(&short, " ").as_str());
        out.append(".");
    }
    text::owned(text::trim_end(out.as_str()))
}

fn planner_reply(s: &Vec<KeyFinding>) -> (r: String)
    ensures
        r@ == planner_text(s@),
{
    let ghost all = s@.map_values(|f: KeyFinding| status_text(f));
    let mut parts: Vec<String> = Vec::new();
    let mut i: usize = 0;
    while i < s.len()
        invariant
            i <= s@.len(),
            all == s@.map_values(|f: KeyFinding| status_text(f)),
            text::views(parts@) == all.take(i as int),
        decreases s@.len() - i,
    {
        let f = &s[i];
        let mut part = f.id.clone();
        part.append(" ");
        part.append(f.status.as_str());
        if !f.reason.as_str().is_empty() {
            part.append(" (");
            part.append(f.reason.as_str());
            part.append(")");
        }
        let ghost before = parts@;
        let ghost shown = part@;
        parts.push(part);
        i += 1;
        assert(text::views(parts@) == text::views(before).push(shown));
        assert(all.take(i as int) == all.take(i - 1).push(all[i - 1]));
    }
    assert(all.take(all.len() as int) == all);
    text::join(&parts, " · ")
}

// ---------------------------------------------------------------------------
// The chat agent
// ---------------------------------------------------------------------------

/// `chat:<seconds>:<six digits>`
pub open spec fn message_id_text(secs: u64, sub: u32) -> Seq<char> {
    "chat:"@ + text::decimal(secs as nat) + ":"@ + text::padded_left(
        text::decimal(sub as nat),
        6,
        '0',
    )
}

/// Renders the id of a message.
pub fn message_id(secs: u64, sub: u32) -> (r: String)
    ensures
        r@ == message_id_text(secs, sub),
{
    let mut out = text::owned("chat:");
    out.append(text::decimal_of(secs).as_str());
    out.append(":");
    out.append(text::pad_left(text::decimal_of(sub as u64).as_str(), 6, '0').as_str());
    out
}

/// Whether the subtasks of a handoff are those of the plan of its task.
pub open spec fn planned_subtasks(s: Seq<HandoffSubTask>, task: Seq<char>) -> bool {
    &&& s.len() == planner::planned(task).len()
    &&& forall|i: int|
        0 <= i < s.len() ==> {
            &&& (#[trigger] s[i]).description@ == planner::planned(task)[i]
            &&& s[i].id@ == planner::slug(planner::planned(task)[i], i as nat)
        }
}

/// The conversational half of the agent.
pub struct ChatAgent {
    pub config: ProviderConfig,
    pub system_prompt: String,
    /// The memory of classified messages, where one is attached.
    pub classify_cache: Option<ClassifyCache>,
}

impl ChatAgent {
    pub fn new(config: ProviderConfig) -> (r: Self)
        ensures
            r.config == config,
            r.system_prompt@ == CHAT_AGENT_SYSTEM_PROMPT@,
            r.classify_cache is None,
    {
        ChatAgent {
            config,
            system_prompt: text::owned(CHAT_AGENT_SYSTEM_PROMPT),
            classify_cache: None,
        }
    }

    /// Attaches a memory of classified messages.
    pub fn with_classify_cache(self, cache: ClassifyCache) -> (r: Self)
        ensures
            r.config == self.config,
            r.system_prompt == self.system_prompt,
            r.classify_cache == Some(cache),
    {
        ChatAgent {
            config: self.config,
            system_prompt: self.system_prompt,
            classify_cache: Some(cache),
        }
    }

    pub fn system_prompt(&self) -> (r: &str)
        ensures
            r@ == self.system_prompt@,
    {
        self.system_prompt.as_str()
    }

    pub fn config(&self) -> (r: &ProviderConfig)
        ensures
            *r == self.config,
    {
        &self.config
    }

    /// What a task is handed on with.
    pub open spec fn hands(
        self,
        task: Seq<char>,
        message_id: Seq<char>,
        constraints: Vec<String>,
        r: Handoff,
    ) -> bool {
        &&& r.task_description@ == task
        &&& planned_subtasks(r.subtasks@, task)
        &&& r.constraints == constraints
        &&& r.originating_message_id@ == message_id
        &&& r.research_plan is None
    }

    /// Builds the handoff of a task: its clauses are its subtasks.
    pub fn build_handoff(
        &self,
        task_description: &str,
        originating_message_id: &str,
        constraints: Vec<String>,
    ) -> (r: Handoff)
        ensures
            self.hands(task_description@, originating_message_id@, constraints, r),
    {
        self.build_handoff_with_platforms(
            task_description,
            originating_message_id,
            constraints,
            &[],
            None,
        )
    }

    /// What a task is handed on with that may be research.
    pub open spec fn hands_to(
        self,
        task: Seq<char>,
        message_id: Seq<char>,
        constraints: Vec<String>,
        default_platforms: Seq<ResearchSubTask>,
        research: Option<ResearchPlan>,
        r: Handoff,
    ) -> bool {
        &&& r.task_description@ == task
        &&& r.constraints == constraints
        &&& r.originating_message_id@ == message_id
        &&& if default_platforms.len() > 0 && research is Some && research->0.is_research {
            &&& handoff::platform_subtasks(r.subtasks@, research->0)
            &&& r.research_plan == research
        } else {
            &&& planned_subtasks(r.subtasks@, task)
            &&& r.research_plan is None
        }
    }

    /// Builds the handoff of a task over the given platforms. Where there are some,
    /// `research` is what the research planner made of the task and them: a plan
    /// that was recognised as research gives the subtasks. Otherwise the clauses of
    /// the task do.
    pub fn build_handoff_with_platforms(
        &self,
        task_description: &str,
        originating_message_id: &str,
        constraints: Vec<String>,
        default_platforms: &[ResearchSubTask],
        research: Option<ResearchPlan>,
    ) -> (r: Handoff)
        ensures
            self.hands_to(
                task_description@,
                originating_message_id@,
                constraints,
                default_platforms@,
                research,
                r,
            ),
    {
        if let Some(plan) = research {
            if default_platforms.len() > 0 && plan.is_research {
                let mut handoff = Handoff::with_research_plan(
                    task_description,
                    originating_message_id,
                    plan,
                );
                handoff.constraints = constraints;
                return handoff;
            }
        }
        let plan = planner::plan(task_description);
        let mut subtasks: Vec<HandoffSubTask> = Vec::new();
        let mut i: usize = 0;
        while i < plan.subtasks.len()
            invariant
                i <= plan.subtasks@.len(),
                subtasks@.len() == i,
                forall|j: int|
                    0 <= j < i ==> {
                        &&& (#[trigger] subtasks@[j]).id == plan.subtasks@[j].id
                        &&& subtasks@[j].description == plan.subtasks@[j].description
                    },
            decreases plan.subtasks@.len() - i,
        {
            subtasks.push(
                HandoffSubTask {
                    id: plan.subtasks[i].id.clone(),
                    description: plan.subtasks[i].description.clone(),
                },
            );
            i += 1;
        }
        proof {
            assert forall|i: int| 0 <= i < subtasks@.len() implies {
                &&& (#[trigger] subtasks@[i]).description@ == planner::planned(task_description@)[i]
                &&& subtasks@[i].id@ == planner::slug(
                    planner::planned(task_description@)[i],
                    i as nat,
                )
            } by {
                let d = plan.subtasks@[i];
            }
        }
        Handoff {
            task_description: text::owned(task_description),
            subtasks,
            constraints,
            originating_message_id: text::owned(originating_message_id),
            research_plan: None,
        }
    }

    /// What research is handed on with.
    pub open spec fn hands_research(
        self,
        task: Seq<char>,
        message_id: Seq<char>,
        plan: ResearchPlan,
        r: Handoff,
    ) -> bool {
        &&& r.task_description@ == task
        &&& handoff::platform_subtasks(r.subtasks@, plan)
        &&& r.constraints@ == Seq::<String>::empty()
        &&& r.originating_message_id@ == message_id
        &&& r.research_plan == Some(plan)
    }

    /// Builds the handoff of a research plan, whatever it was recognised as.
    pub fn build_research_handoff(
        &self,
        task_description: &str,
        originating_message_id: &str,
        plan: ResearchPlan,
    ) -> (r: Handoff)
        ensures
            self.hands_research(task_description@, originating_message_id@, plan, r),
    {
        Handoff::with_research_plan(task_description, originating_message_id, plan)
    }

    /// Makes an id for a message of the present moment.
    pub fn mint_message_id(&self) -> (r: String)
        ensures
            exists|secs: u64, sub: u32|
                sub < 1_000_000 && r@ == #[trigger] message_id_text(secs, sub),
    {
        let secs: u64 = clock::now_secs();
        let sub: u32 = match clock::nanos_within_second() {
            Some(n) => n % 1_000_000,
            None => 0,
        };
        message_id(secs, sub)
    }

    /// What is remembered of a message.
    pub open spec fn recalls(
        self,
        message: Seq<char>,
        history: Seq<ConversationMessage>,
        r: Option<Intent>,
    ) -> bool {
        &&& match self.classify_cache {
            Some(cache) => match r {
                Some(intent) => cache.entries().contains_key(
                    crate::classify_cache::key_of(message, history),
                ) && intent == cache.entries()[crate::classify_cache::key_of(
                    message,
                    history,
                )],
                None => !cache.entries().contains_key(
                    crate::classify_cache::key_of(message, history),
                ),
            },
            None => r is None,
        }
    }

    /// The answer that the attached memory holds for a message.
    pub fn recall_intent(
        &self,
        message: &str,
        history: &[ConversationMessage],
    ) -> (r: Option<Intent>)
        ensures
            self.recalls(message@, history@, r),
    {
        match &self.classify_cache {
            Some(cache) => cache.recall(message, history),
            None => None,
        }
    }

    /// What is kept of the answer to a message.
    pub open spec fn remembers(
        self,
        message: Seq<char>,
        history: Seq<ConversationMessage>,
        answer: Option<Intent>,
        after: ChatAgent,
    ) -> bool {
        &&& after.config == self.config
        &&& after.system_prompt == self.system_prompt
        &&& match (self.classify_cache, after.classify_cache) {
            (Some(before), Some(after)) => {
                &&& after.wf()
                &&& match answer {
                    Some(intent) => before.stored(
                        crate::classify_cache::key_of(message, history),
                        intent,
                        after.entries(),
                    ),
                    None => after.entries() == before.entries(),
                }
            },
            (None, None) => true,
            _ => false,
        }
    }

    /// Keeps the answer for a message in the attached memory. A failed
    /// classification is `None` and is not kept.
    pub fn remember_intent(
        &mut self,
        message: &str,
        history: &[ConversationMessage],
        answer: &Option<Intent>,
    )
        requires
            old(self).classify_cache matches Some(cache) ==> cache.wf(),
        ensures
            old(self).remembers(message@, history@, *answer, *final(self)),
    {
        let mut attached: Option<ClassifyCache> = None;
        std::mem::swap(&mut attached, &mut self.classify_cache);
        if let Some(mut cache) = attached {
            cache.remember(message, history, answer);
            self.classify_cache = Some(cache);
        }
    }

    /// Phrases the result of a browser task as a chat reply.
    pub fn synthesize_reply(
        &self,
        result: &BrowserResult,
        history: &[ConversationMessage],
        handoff: &Handoff,
    ) -> (r: String)
        ensures
            r@ == reply_text(self.config.agent.planner_enabled, *result),
            r@.len() > 0,
    {
        proof {
            law_replies_are_never_empty(self.config.agent.planner_enabled, *result);
        }
        if self.config.agent.planner_enabled {
            if result.key_findings.len() > 0 {
                return planner_reply(&result.key_findings);
            }
            if result.status == BrowserStatus::Failed {
                return synthesize_failed(result);
            }
        }
        if result.findings.len() > 0 {
            return synthesize_research(result);
        }
        match result.status {
            BrowserStatus::Done => synthesize_done(result),
            BrowserStatus::Partial => synthesize_partial(result),
            BrowserStatus::Failed => synthesize_failed(result),
        }
    }
}

// ---------------------------------------------------------------------------
// Laws
// ---------------------------------------------------------------------------

proof fn lemma_trimmed_end_keeps(s: Seq<char>, i: int)
    requires
        0 <= i < s.len(),
        !text::white_space(s[i]),
    ensures
        i < text::trimmed_end(s).len() <= s.len(),
        text::trimmed_end(s) == s.take(text::trimmed_end(s).len() as int),
    decreases s.len(),
{
    if text::white_space(s.last()) {
        lemma_trimmed_end_keeps(s.drop_last(), i);
        let n = text::trimmed_end(s).len() as int;
        assert(s.drop_last().take(n) == s.take(n));
    } else {
        assert(s.take(s.len() as int) == s);
    }
}

proof fn lemma_trimmed_start_first(s: Seq<char>)
    ensures
        text::trimmed_start(s).len() > 0 ==> !text::white_space(text::trimmed_start(s)[0]),
    decreases s.len(),
{
    if s.len() > 0 && text::white_space(s[0]) {
        lemma_trimmed_start_first(s.drop_first());
    }
}

/// What is left after trimming begins with something visible.
pub proof fn lemma_trimmed_first(s: Seq<char>)
    requires
        text::trimmed(s).len() > 0,
    ensures
        !text::white_space(text::trimmed(s)[0]),
{
    lemma_trimmed_start_first(s);
    let t = text::trimmed_start(s);
    lemma_trimmed_end_prefix(t);
}

proof fn lemma_trimmed_end_prefix(s: Seq<char>)
    ensures
        text::trimmed_end(s).len() <= s.len(),
        text::trimmed_end(s) == s.take(text::trimmed_end(s).len() as int),
    decreases s.len(),
{
    if s.len() > 0 && text::white_space(s.last()) {
        lemma_trimmed_end_prefix(s.drop_last());
        let n = text::trimmed_end(s).len() as int;
        assert(s.drop_last().take(n) == s.take(n));
    } else {
        assert(s.take(s.len() as int) == s);
    }
}

proof fn lemma_joined_nonempty(parts: Seq<Seq<char>>, sep: Seq<char>)
    requires
        parts.len() > 0,
        forall|i: int| 0 <= i < parts.len() ==> (#[trigger] parts[i]).len() > 0,
    ensures
        text::joined(parts, sep).len() > 0,
{
}

/// Every browser task is answered: whatever the result, the reply is not empty.
pub proof fn law_replies_are_never_empty(planner_enabled: bool, r: BrowserResult)
    ensures
        reply_text(planner_enabled, r).len() > 0,
{
    reveal_strlit("The browser task completed.");
    reveal_strlit("The browser task partially completed.");
    reveal_strlit("I couldn't complete the task.");
    reveal_strlit(" ");
    if planner_enabled && r.key_findings@.len() > 0 {
        let parts = r.key_findings@.map_values(|f: KeyFinding| status_text(f));
        assert forall|i: int| 0 <= i < parts.len() implies (#[trigger] parts[i]).len() > 0 by {
            assert(parts[i] == status_text(r.key_findings@[i]));
        }
        lemma_joined_nonempty(parts, " · "@);
    } else if !(planner_enabled && r.status == BrowserStatus::Failed) && r.findings@.len() > 0 {
        lemma_research_nonempty(r);
    }
}

proof fn lemma_research_nonempty(r: BrowserResult)
    ensures
        research_text(r).len() > 0,
{
    reveal_strlit("Found ");
    reveal_strlit("no findings to report.");
    let first = if text::trimmed(r.summary@).len() == 0 {
        found_text(r.findings@)
    } else {
        text::trimmed(r.summary@)
    };
    if text::trimmed(r.summary@).len() > 0 {
        lemma_trimmed_first(r.summary@);
    }
    assert(first.len() > 0 && !text::white_space(first[0]));
    let head = first + "\n"@ + finding_rows(r.findings@, r.findings@.len());
    let with_reason = if r.status == BrowserStatus::Failed && text::trimmed(
        r.failure_reason@,
    ).len() > 0 {
        head + "  Failed: "@ + text::trimmed(r.failure_reason@) + "\n"@
    } else {
        head
    };
    let shortfalls = issue_texts(r.key_findings@, |f: KeyFinding| is_shortfall(f));
    let whole = if shortfalls.len() == 0 {
        with_reason
    } else {
        with_reason + "  Outstanding:"@ + text::joined(shortfalls, " "@) + "."@
    };
    assert(whole[0] == first[0]);
    lemma_trimmed_end_keeps(whole, 0);
}

/// A research reply with findings begins with the summary, where there is one.
pub proof fn lemma_research_begins_with_summary(r: BrowserResult)
    requires
        r.findings@.len() > 0,
        text::trimmed(r.summary@).len() > 0,
    ensures
        text::trimmed(r.summary@).is_prefix_of(research_text(r)),
{
    let first = text::trimmed(r.summary@);
    lemma_trimmed_end_last(text::trimmed_start(r.summary@));
    let head = first + "\n"@ + finding_rows(r.findings@, r.findings@.len());
    let with_reason = if r.status == BrowserStatus::Failed && text::trimmed(
        r.failure_reason@,
    ).len() > 0 {
        head + "  Failed: "@ + text::trimmed(r.failure_reason@) + "\n"@
    } else {
        head
    };
    let shortfalls = issue_texts(r.key_findings@, |f: KeyFinding| is_shortfall(f));
    let whole = if shortfalls.len() == 0 {
        with_reason
    } else {
        with_reason + "  Outstanding:"@ + text::joined(shortfalls, " "@) + "."@
    };
    assert(whole.take(first.len() as int) == first);
    assert(whole[first.len() - 1] == first.last());
    lemma_trimmed_end_keeps(whole, first.len() - 1);
    let reply = text::trimmed_end(whole);
    assert(reply.take(first.len() as int) == whole.take(first.len() as int));
}

/// A failure is never passed over: the reply to a failed task without findings
/// holds its reason, or says that the task could not be completed.
pub proof fn law_failures_name_their_reason(planner_enabled: bool, r: BrowserResult)
    requires
        r.status == BrowserStatus::Failed,
        r.key_findings@.len() == 0 || !planner_enabled,
        r.findings@.len() == 0 || planner_enabled,
    ensures
        text::occurs(
            reply_text(planner_enabled, r),
            or_else(r.failure_reason@, "I couldn't complete the task."@),
        ),
{
    let reason = or_else(r.failure_reason@, "I couldn't complete the task."@);
    let reply = reply_text(planner_enabled, r);
    if text::trimmed(r.summary@).len() == 0 {
        assert(reply.subrange(0, reason.len() as int) == reason);
        assert(text::occurs_at(reply, reason, 0));
    } else {
        let at = (text::trimmed(r.summary@) + " ("@).len() as int;
        assert(reply.subrange(at, at + reason.len()) == reason);
        assert(text::occurs_at(reply, reason, at));
    }
}

proof fn lemma_trimmed_end_last(s: Seq<char>)
    ensures
        text::trimmed_end(s).len() > 0 ==> !text::white_space(text::trimmed_end(s).last()),
    decreases s.len(),
{
    if s.len() > 0 && text::white_space(s.last()) {
        lemma_trimmed_end_last(s.drop_last());
    }
}

/// A research task that failed names its reason beside what it found.
pub proof fn law_failed_research_names_its_reason(r: BrowserResult)
    requires
        r.status == BrowserStatus::Failed,
        r.findings@.len() > 0,
        text::trimmed(r.failure_reason@).len() > 0,
    ensures
        text::occurs(reply_text(false, r), text::trimmed(r.failure_reason@)),
{
    let reason = text::trimmed(r.failure_reason@);
    lemma_trimmed_end_last(text::trimmed_start(r.failure_reason@));
    let head = (if text::trimmed(r.summary@).len() == 0 {
        found_text(r.findings@)
    } else {
        text::trimmed(r.summary@)
    }) + "\n"@ + finding_rows(r.findings@, r.findings@.len());
    let lead = head + "  Failed: "@;
    let with_reason = lead + reason + "\n"@;
    let shortfalls = issue_texts(r.key_findings@, |f: KeyFinding| is_shortfall(f));
    let whole = if shortfalls.len() == 0 {
        with_reason
    } else {
        with_reason + "  Outstanding:"@ + text::joined(shortfalls, " "@) + "."@
    };
    let at = lead.len() as int;
    let end = at + reason.len();
    assert(whole.subrange(at, end) == reason);
    assert(whole[end - 1] == reason.last());
    lemma_trimmed_end_keeps(whole, end - 1);
    let reply = reply_text(false, r);
    assert(reply == text::trimmed_end(whole));
    assert(reply.subrange(at, end) == whole.subrange(at, end));
    assert(text::occurs_at(reply, reason, at));
}

/// A reply of the planner tells of each todo how it stands, and why: its id, its
/// own status and its reason. A todo that is not done is never told as done.
pub proof fn law_planner_replies_tell_each_todo(r: BrowserResult, i: int)
    requires
        0 <= i < r.key_findings@.len(),
    ensures
        text::occurs(
            reply_text(true, r),
            r.key_findings@[i].id@ + " "@ + r.key_findings@[i].status@,
        ),
        r.key_findings@[i].reason@.len() > 0 ==> text::occurs(
            reply_text(true, r),
            r.key_findings@[i].id@ + " "@ + r.key_findings@[i].status@ + " ("@
                + r.key_findings@[i].reason@ + ")"@,
        ),
{
    let f = r.key_findings@[i];
    let parts = r.key_findings@.map_values(|f: KeyFinding| status_text(f));
    let reply = reply_text(true, r);
    text::law_joined_holds_each_part(parts, " · "@, i);
    let at = text::part_start(parts, " · "@, i);
    assert(parts[i] == status_text(f));
    text::lemma_occurs_here(reply, parts[i], at);
    let head = f.id@ + " "@ + f.status@;
    if f.reason@.len() > 0 {
        assert(status_text(f) == head + (" ("@ + f.reason@ + ")"@));
        text::lemma_prefix_occurs(head, " ("@ + f.reason@ + ")"@);
    } else {
        assert(head.subrange(0, head.len() as int) == head);
    }
    text::lemma_occurs_within(reply, parts[i], at, head, 0);
}

/// A reply of the planner tells the todos in order, each once, and nothing else.
pub proof fn law_planner_replies_tell_nothing_else(r: BrowserResult, told: Seq<Seq<char>>)
    requires
        r.key_findings@.len() > 0,
        told.len() == r.key_findings@.len(),
        forall|i: int|
            0 <= i < told.len() ==> #[trigger] told[i] == r.key_findings@[i].id@ + " "@
                + r.key_findings@[i].status@ + if r.key_findings@[i].reason@.len() > 0 {
                " ("@ + r.key_findings@[i].reason@ + ")"@
            } else {
                Seq::empty()
            },
    ensures
        reply_text(true, r) == text::joined(told, " · "@),
{
    let parts = r.key_findings@.map_values(|f: KeyFinding| status_text(f));
    assert forall|i: int| 0 <= i < told.len() implies #[trigger] told[i] == parts[i] by {
        let f = r.key_findings@[i];
        let head = f.id@ + " "@ + f.status@;
        assert(parts[i] == status_text(f));
        if f.reason@.len() > 0 {
            assert(told[i] == head + (" ("@ + f.reason@ + ")"@));
            assert(head + " ("@ + f.reason@ + ")"@ == head + (" ("@ + f.reason@ + ")"@));
        } else {
            assert(told[i] == head + Seq::<char>::empty());
            assert(head + Seq::<char>::empty() == head);
        }
    }
    assert(told == parts);
}

proof fn lemma_row(findings: Seq<ResearchFinding>, n: nat, i: int)
    requires
        0 <= i < n <= findings.len(),
    ensures
        text::occurs_at(
            finding_rows(findings, n),
            text::decimal((i + 1) as nat) + ". "@ + findings[i].spec_one_line() + "\n"@,
            finding_rows(findings, i as nat).len() as int + 2,
        ),
        finding_rows(findings, i as nat).len() < finding_rows(findings, n).len(),
        finding_rows(findings, n).len() > 0,
        finding_rows(findings, n).last() == '\n',
    decreases n,
{
    reveal_strlit("  ");
    reveal_strlit("\n");
    let before = finding_rows(findings, (n - 1) as nat);
    let row = "  "@ + text::decimal(n) + ". "@ + findings[n - 1].spec_one_line() + "\n"@;
    let all = finding_rows(findings, n);
    assert(all == before + row);
    assert(row.last() == '\n');
    if i < n - 1 {
        lemma_row(findings, (n - 1) as nat, i);
        let p = text::decimal((i + 1) as nat) + ". "@ + findings[i].spec_one_line() + "\n"@;
        text::lemma_prefix_occurs(before, row);
        text::lemma_occurs_within(
            all,
            before,
            0,
            p,
            finding_rows(findings, i as nat).len() as int + 2,
        );
    } else {
        let p = text::decimal(n) + ". "@ + findings[n - 1].spec_one_line() + "\n"@;
        assert(row == "  "@ + p);
        text::lemma_suffix_occurs(before, row);
        text::lemma_suffix_occurs("  "@, p);
        text::lemma_occurs_within(all, row, before.len() as int, p, 2);
    }
}

/// What a research reply begins with, before its rows.
pub open spec fn research_head(r: BrowserResult) -> Seq<char> {
    if text::trimmed(r.summary@).len() == 0 {
        found_text(r.findings@)
    } else {
        text::trimmed(r.summary@)
    }
}

/// A research reply before its end is trimmed.
proof fn lemma_research_whole(r: BrowserResult) -> (rest: Seq<char>)
    requires
        r.findings@.len() > 0,
    ensures
        research_text(r) == text::trimmed_end(
            research_head(r) + "\n"@ + finding_rows(r.findings@, r.findings@.len()) + rest,
        ),
{
    let head = research_head(r) + "\n"@ + finding_rows(r.findings@, r.findings@.len());
    let reason = if r.status == BrowserStatus::Failed && text::trimmed(r.failure_reason@).len()
        > 0 {
        "  Failed: "@ + text::trimmed(r.failure_reason@) + "\n"@
    } else {
        Seq::empty()
    };
    let shortfalls = issue_texts(r.key_findings@, |f: KeyFinding| is_shortfall(f));
    let open = if shortfalls.len() == 0 {
        Seq::empty()
    } else {
        "  Outstanding:"@ + text::joined(shortfalls, " "@) + "."@
    };
    let rest = reason + open;
    let with_reason = if r.status == BrowserStatus::Failed && text::trimmed(
        r.failure_reason@,
    ).len() > 0 {
        head + "  Failed: "@ + text::trimmed(r.failure_reason@) + "\n"@
    } else {
        head
    };
    assert(with_reason == head + reason);
    let whole = if shortfalls.len() == 0 {
        with_reason
    } else {
        with_reason + "  Outstanding:"@ + text::joined(shortfalls, " "@) + "."@
    };
    assert(whole == head + rest);
    rest
}

proof fn lemma_trimming_keeps(s: Seq<char>, p: Seq<char>, at: int)
    requires
        text::occurs_at(s, p, at),
        p.len() > 0,
        !text::white_space(p.last()),
    ensures
        text::occurs_at(text::trimmed_end(s), p, at),
{
    let end = at + p.len();
    assert(s.subrange(at, end)[p.len() - 1] == s[end - 1]);
    lemma_trimmed_end_keeps(s, end - 1);
    let t = text::trimmed_end(s);
    assert(t.subrange(at, end) == s.subrange(at, end));
}

proof fn lemma_finding_at(r: BrowserResult, i: int) -> (at: int)
    requires
        0 <= i < r.findings@.len(),
        r.findings@[i].spec_one_line().len() > 0,
        !text::white_space(r.findings@[i].spec_one_line().last()),
    ensures
        at == research_head(r).len() + 3 + finding_rows(r.findings@, i as nat).len(),
        text::occurs_at(
            research_text(r),
            text::decimal((i + 1) as nat) + ". "@ + r.findings@[i].spec_one_line(),
            at,
        ),
{
    reveal_strlit("\n");
    let rest = lemma_research_whole(r);
    let rows = finding_rows(r.findings@, r.findings@.len());
    let lead = research_head(r) + "\n"@;
    let whole = lead + rows + rest;
    let line = text::decimal((i + 1) as nat) + ". "@ + r.findings@[i].spec_one_line();
    lemma_row(r.findings@, r.findings@.len(), i);
    let k = finding_rows(r.findings@, i as nat).len() + 2;
    text::lemma_occurs_between(lead, rows, rest);
    text::lemma_prefix_occurs(line, "\n"@);
    text::lemma_occurs_within(rows, line + "\n"@, k as int, line, 0);
    text::lemma_occurs_within(whole, rows, lead.len() as int, line, k as int);
    let at = lead.len() + k;
    assert(line.last() == r.findings@[i].spec_one_line().last());
    lemma_trimming_keeps(whole, line, at as int);
    at as int
}

/// A research reply names every finding, under its own number.
pub proof fn law_research_replies_name_every_finding(r: BrowserResult, i: int)
    requires
        0 <= i < r.findings@.len(),
        r.findings@[i].spec_one_line().len() > 0,
        !text::white_space(r.findings@[i].spec_one_line().last()),
    ensures
        text::occurs(
            research_text(r),
            text::decimal((i + 1) as nat) + ". "@ + r.findings@[i].spec_one_line(),
        ),
        text::occurs(
            reply_text(false, r),
            text::decimal((i + 1) as nat) + ". "@ + r.findings@[i].spec_one_line(),
        ),
{
    let at = lemma_finding_at(r, i);
    text::lemma_occurs_here(
        research_text(r),
        text::decimal((i + 1) as nat) + ". "@ + r.findings@[i].spec_one_line(),
        at,
    );
}

/// The findings of a research reply stand in the order in which they were found.
pub proof fn law_research_replies_keep_the_order(r: BrowserResult, i: int, j: int) -> (at: (
    int,
    int,
))
    requires
        0 <= i < j < r.findings@.len(),
        r.findings@[i].spec_one_line().len() > 0,
        !text::white_space(r.findings@[i].spec_one_line().last()),
        r.findings@[j].spec_one_line().len() > 0,
        !text::white_space(r.findings@[j].spec_one_line().last()),
    ensures
        at.0 < at.1,
        text::occurs_at(
            research_text(r),
            text::decimal((i + 1) as nat) + ". "@ + r.findings@[i].spec_one_line(),
            at.0,
        ),
        text::occurs_at(
            research_text(r),
            text::decimal((j + 1) as nat) + ". "@ + r.findings@[j].spec_one_line(),
            at.1,
        ),
{
    let a = lemma_finding_at(r, i);
    let b = lemma_finding_at(r, j);
    lemma_row(r.findings@, j as nat, i);
    (a, b)
}

proof fn lemma_issue_listed(s: Seq<KeyFinding>, keep: spec_fn(KeyFinding) -> bool, i: int) -> (k:
    int)
    requires
        0 <= i < s.len(),
        keep(s[i]),
    ensures
        0 <= k < issue_texts(s, keep).len(),
        issue_texts(s, keep)[k] == issue_text(s[i]),
{
    s.lemma_filter_contains(keep, i);
    let kept = s.filter(keep);
    let k = choose|k: int| 0 <= k < kept.len() && kept[k] == s[i];
    assert(issue_texts(s, keep)[k] == issue_text(s[i]));
    k
}

proof fn lemma_issue_shows(f: KeyFinding)
    ensures
        text::occurs_at(
            issue_text(f),
            f.id@ + ": "@ + f.description@ + " ["@ + f.status@ + "]"@,
            0,
        ),
        f.reason@.len() > 0 ==> text::occurs_at(
            issue_text(f),
            f.id@ + ": "@ + f.description@ + " ["@ + f.status@ + "] ("@ + f.reason@ + ")"@,
            0,
        ),
{
    reveal_strlit("]");
    reveal_strlit(" (");
    reveal_strlit("] (");
    let head = f.id@ + ": "@ + f.description@ + " ["@ + f.status@ + "]"@;
    if f.reason@.len() > 0 {
        assert(issue_text(f) == head + (" ("@ + f.reason@ + ")"@));
        text::lemma_prefix_occurs(head, " ("@ + f.reason@ + ")"@);
        let full = f.id@ + ": "@ + f.description@ + " ["@ + f.status@ + "] ("@ + f.reason@ + ")"@;
        assert(issue_text(f) == full);
        assert(full.subrange(0, full.len() as int) == full);
    } else {
        assert(head.subrange(0, head.len() as int) == head);
    }
}

/// The reply to a partly completed task names every subtask that failed, was
/// skipped or is pending, with its status and its reason.
pub proof fn law_partial_replies_name_what_is_open(r: BrowserResult, i: int)
    requires
        r.status == BrowserStatus::Partial,
        r.findings@.len() == 0,
        0 <= i < r.key_findings@.len(),
        r.key_findings@[i].status@ == "failed"@ || r.key_findings@[i].status@ == "skipped"@
            || r.key_findings@[i].status@ == "pending"@,
    ensures
        text::occurs(
            reply_text(false, r),
            r.key_findings@[i].id@ + ": "@ + r.key_findings@[i].description@ + " ["@
                + r.key_findings@[i].status@ + "]"@,
        ),
        r.key_findings@[i].reason@.len() > 0 ==> text::occurs(
            reply_text(false, r),
            r.key_findings@[i].id@ + ": "@ + r.key_findings@[i].description@ + " ["@
                + r.key_findings@[i].status@ + "] ("@ + r.key_findings@[i].reason@ + ")"@,
        ),
{
    let f = r.key_findings@[i];
    let keep = |f: KeyFinding| is_issue(f);
    let k = lemma_issue_listed(r.key_findings@, keep, i);
    let issues = issue_texts(r.key_findings@, keep);
    text::law_joined_holds_each_part(issues, " "@, k);
    let list = text::joined(issues, " "@);
    let lead = or_else(r.summary@, "The browser task partially completed."@) + " Outstanding:"@;
    let reply = reply_text(false, r);
    assert(reply == lead + list + "."@);
    text::lemma_occurs_between(lead, list, "."@);
    let at = text::part_start(issues, " "@, k);
    text::lemma_occurs_within(reply, list, lead.len() as int, issues[k], at);
    lemma_issue_shows(f);
    text::lemma_occurs_within(
        reply,
        issue_text(f),
        lead.len() + at,
        f.id@ + ": "@ + f.description@ + " ["@ + f.status@ + "]"@,
        0,
    );
    if f.reason@.len() > 0 {
        text::lemma_occurs_within(
            reply,
            issue_text(f),
            lead.len() + at,
            f.id@ + ": "@ + f.description@ + " ["@ + f.status@ + "] ("@ + f.reason@ + ")"@,
            0,
        );
    }
}

/// Where every subtask is done, a partly completed task is told by its summary
/// alone: nothing is outstanding.
pub proof fn law_partial_replies_name_only_what_is_open(r: BrowserResult)
    requires
        r.status == BrowserStatus::Partial,
        r.findings@.len() == 0,
        forall|i: int|
            0 <= i < r.key_findings@.len() ==> (#[trigger] r.key_findings@[i]).status@ == "done"@,
    ensures
        text::trimmed(r.summary@).len() > 0 ==> reply_text(false, r) == text::trimmed(r.summary@),
        text::trimmed(r.summary@).len() == 0 ==> reply_text(false, r)
            == "The browser task partially completed."@,
{
    reveal_strlit("done");
    reveal_strlit("failed");
    reveal_strlit("skipped");
    reveal_strlit("pending");
    assert("done"@[0] == 'd' && "failed"@[0] == 'f' && "skipped"@[0] == 's' && "pending"@[0]
        == 'p');
    let keep = |f: KeyFinding| is_issue(f);
    let kept = r.key_findings@.filter(keep);
    if kept.len() > 0 {
        r.key_findings@.lemma_filter_pred(keep, 0);
        r.key_findings@.lemma_filter_contains_rev(keep, kept[0]);
        let i = choose|i: int| 0 <= i < r.key_findings@.len() && r.key_findings@[i] == kept[0];
        assert(r.key_findings@[i].status@ == "done"@);
    }
}

/// A research reply names every platform that was exhausted, failed or skipped,
/// with its status and its reason.
pub proof fn law_research_replies_name_what_fell_short(r: BrowserResult, i: int)
    requires
        r.findings@.len() > 0,
        0 <= i < r.key_findings@.len(),
        r.key_findings@[i].status@ == "exhausted"@ || r.key_findings@[i].status@ == "failed"@
            || r.key_findings@[i].status@ == "skipped"@,
    ensures
        text::occurs(
            reply_text(false, r),
            r.key_findings@[i].id@ + ": "@ + r.key_findings@[i].description@ + " ["@
                + r.key_findings@[i].status@ + "]"@,
        ),
        r.key_findings@[i].reason@.len() > 0 ==> text::occurs(
            reply_text(false, r),
            r.key_findings@[i].id@ + ": "@ + r.key_findings@[i].description@ + " ["@
                + r.key_findings@[i].status@ + "] ("@ + r.key_findings@[i].reason@ + ")"@,
        ),
{
    reveal_strlit(".");
    let f = r.key_findings@[i];
    let keep = |f: KeyFinding| is_shortfall(f);
    let k = lemma_issue_listed(r.key_findings@, keep, i);
    let issues = issue_texts(r.key_findings@, keep);
    text::law_joined_holds_each_part(issues, " "@, k);
    let list = text::joined(issues, " "@);
    let head = research_head(r) + "\n"@ + finding_rows(r.findings@, r.findings@.len());
    let with_reason = if r.status == BrowserStatus::Failed && text::trimmed(
        r.failure_reason@,
    ).len() > 0 {
        head + "  Failed: "@ + text::trimmed(r.failure_reason@) + "\n"@
    } else {
        head
    };
    let lead = with_reason + "  Outstanding:"@;
    let whole = lead + list + "."@;
    let reply = reply_text(false, r);
    assert(whole.last() == '.');
    assert(!text::white_space('.'));
    assert(reply == whole);
    text::lemma_occurs_between(lead, list, "."@);
    let at = text::part_start(issues, " "@, k);
    text::lemma_occurs_within(reply, list, lead.len() as int, issues[k], at);
    lemma_issue_shows(f);
    text::lemma_occurs_within(
        reply,
        issue_text(f),
        lead.len() + at,
        f.id@ + ": "@ + f.description@ + " ["@ + f.status@ + "]"@,
        0,
    );
    if f.reason@.len() > 0 {
        text::lemma_occurs_within(
            reply,
            issue_text(f),
            lead.len() + at,
            f.id@ + ": "@ + f.description@ + " ["@ + f.status@ + "] ("@ + f.reason@ + ")"@,
            0,
        );
    }
}

proof fn lemma_count_status(s: Seq<KeyFinding>, status: Seq<char>)
    ensures
        count_status(s, status) == s.filter(|f: KeyFinding| f.status@ == status).len(),
    decreases s.len(),
{
    reveal(Seq::filter);
    if s.len() > 0 {
        lemma_count_status(s.drop_last(), status);
    }
}

/// The reply to a completed task is its summary, or a sentence in its place, and how
/// many of its subtasks are done, out of how many.
pub proof fn law_done_replies_count_the_subtasks(r: BrowserResult)
    requires
        r.status == BrowserStatus::Done,
        r.findings@.len() == 0,
    ensures
        ({
            let lead = if text::trimmed(r.summary@).len() > 0 {
                text::trimmed(r.summary@)
            } else {
                "The browser task completed."@
            };
            let done = r.key_findings@.filter(|f: KeyFinding| f.status@ == "done"@).len();
            &&& r.key_findings@.len() == 0 ==> reply_text(false, r) == lead
            &&& r.key_findings@.len() > 0 ==> reply_text(false, r) == lead + (" ("@ + text::decimal(
                done,
            ) + " of "@ + text::decimal(r.key_findings@.len()) + " sub-tasks completed.)"@)
        }),
{
    let status = "done"@;
    lemma_count_status(r.key_findings@, status);
    let given = |f: KeyFinding| f.status@ == status;
    let named = |f: KeyFinding| f.status@ == "done"@;
    assert(given =~= named);
    let lead = or_else(r.summary@, "The browser task completed."@);
    let done = count_status(r.key_findings@, "done"@);
    assert(lead + " ("@ + text::decimal(done) + " of "@ + text::decimal(r.key_findings@.len())
        + " sub-tasks completed.)"@ == lead + (" ("@ + text::decimal(done) + " of "@
        + text::decimal(r.key_findings@.len()) + " sub-tasks completed.)"@));
}

/// A reply without the planner begins with the summary, where there is one.
pub proof fn law_replies_begin_with_the_summary(r: BrowserResult)
    requires
        text::trimmed(r.summary@).len() > 0,
    ensures
        text::trimmed(r.summary@).is_prefix_of(reply_text(false, r)),
{
    let first = text::trimmed(r.summary@);
    assert(first.subrange(0, first.len() as int) == first);
    if r.findings@.len() > 0 {
        lemma_research_begins_with_summary(r);
    } else {
        match r.status {
            BrowserStatus::Done => {
                law_done_replies_count_the_subtasks(r);
                if r.key_findings@.len() > 0 {
                    let rest = " ("@ + text::decimal(
                        r.key_findings@.filter(|f: KeyFinding| f.status@ == "done"@).len(),
                    ) + " of "@ + text::decimal(r.key_findings@.len()) + " sub-tasks completed.)"@;
                    text::lemma_prefix_occurs(first, rest);
                }
            },
            BrowserStatus::Partial => {
                let issues = issue_texts(r.key_findings@, |f: KeyFinding| is_issue(f));
                let rest = " Outstanding:"@ + text::joined(issues, " "@) + "."@;
                assert(first + " Outstanding:"@ + text::joined(issues, " "@) + "."@ == first + rest);
                text::lemma_prefix_occurs(first, rest);
            },
            BrowserStatus::Failed => {
                let reason = or_else(r.failure_reason@, "I couldn't complete the task."@);
                let rest = " ("@ + reason + ")"@;
                assert(first + " ("@ + reason + ")"@ == first + rest);
                text::lemma_prefix_occurs(first, rest);
            },
        }
    }
}

/// Research without a summary is told by how much was found: the number of findings
/// and the number of different platforms.
pub proof fn law_research_counts_what_was_found(r: BrowserResult)
    requires
        r.findings@.len() > 0,
        text::trimmed(r.summary@).len() == 0,
    ensures
        ("Found "@ + text::decimal(r.findings@.len()) + " result"@).is_prefix_of(research_text(r)),
        text::occurs(
            research_text(r),
            " across "@ + text::decimal(
                Set::new(
                    |p: Seq<char>|
                        exists|i: int|
                            0 <= i < r.findings@.len() && (#[trigger] r.findings@[i]).platform@
                                == p,
                ).len(),
            ) + " platform"@,
        ),
{
    reveal_strlit(" platform");
    reveal_strlit(" result");
    let all = platforms(r.findings@);
    let seen = Set::new(
        |p: Seq<char>|
            exists|i: int|
                0 <= i < r.findings@.len() && (#[trigger] r.findings@[i]).platform@ == p,
    );
    assert(seen == all.to_set()) by {
        assert forall|p: Seq<char>| seen.contains(p) <==> #[trigger] all.to_set().contains(p) by {
            if seen.contains(p) {
                let i = choose|i: int|
                    0 <= i < r.findings@.len() && (#[trigger] r.findings@[i]).platform@ == p;
                assert(all[i] == p);
            }
            if all.to_set().contains(p) {
                let i = choose|i: int| 0 <= i < all.len() && all[i] == p;
                assert(r.findings@[i].platform@ == p);
            }
        }
    }
    let n = r.findings@.len();
    let m = seen.len();
    let a = "Found "@ + text::decimal(n) + " result"@;
    let b = " across "@ + text::decimal(m) + " platform"@;
    let tail = plural(m) + "."@;
    let first = found_text(r.findings@);
    assert(first == a + plural(n) + b + tail);
    assert(first == a + (plural(n) + b + tail));
    let rest = lemma_research_whole(r);
    let rows = finding_rows(r.findings@, n);
    let whole = first + "\n"@ + rows + rest;
    assert(whole == first + ("\n"@ + rows + rest));
    text::lemma_prefix_occurs(first, "\n"@ + rows + rest);
    text::lemma_prefix_occurs(a, plural(n) + b + tail);
    text::lemma_occurs_between(a + plural(n), b, tail);
    text::lemma_occurs_within(whole, first, 0, a, 0);
    text::lemma_occurs_within(whole, first, 0, b, (a + plural(n)).len() as int);
    reveal_strlit(".");
    assert(first.last() == '.');
    assert(whole[first.len() - 1] == '.');
    lemma_trimmed_end_keeps(whole, first.len() - 1);
    let reply = research_text(r);
    let k = (a + plural(n)).len() as int;
    assert(reply.subrange(0, a.len() as int) == whole.subrange(0, a.len() as int));
    assert(reply.subrange(k, k + b.len()) == whole.subrange(k, k + b.len()));
    assert(text::occurs_at(reply, b, k));
}

/// Messages of different moments have different ids.
pub proof fn law_message_ids_are_distinct(s: u64, i: u32, t: u64, j: u32)
    requires
        i < 1_000_000,
        j < 1_000_000,
        message_id_text(s, i) == message_id_text(t, j),
    ensures
        s == t,
        i == j,
{
    reveal_strlit("chat:");
    reveal_strlit(":");
    reveal_with_fuel(text::power_of_ten, 7);
    text::lemma_decimal_len(i as nat, 6);
    text::lemma_decimal_len(j as nat, 6);
    let pi = text::padded_left(text::decimal(i as nat), 6, '0');
    let pj = text::padded_left(text::decimal(j as nat), 6, '0');
    text::law_padding_on_the_left(text::decimal(i as nat), 6, '0');
    text::law_padding_on_the_left(text::decimal(j as nat), 6, '0');
    let a = message_id_text(s, i);
    let b = message_id_text(t, j);
    assert(a.subrange(a.len() - 6, a.len() as int) == pi);
    assert(b.subrange(b.len() - 6, b.len() as int) == pj);
    text::lemma_padded_numerals_differ(i as nat, j as nat, 10, 6);
    let ds = text::decimal(s as nat);
    let dt = text::decimal(t as nat);
    assert(a.subrange(5, a.len() - 7) == ds);
    assert(b.subrange(5, b.len() - 7) == dt);
    planner::lemma_decimal_injective(s as nat, t as nat);
}

/// The handoff of a compound task holds a subtask for every clause of it.
pub proof fn law_handoffs_hold_every_clause(s: Seq<HandoffSubTask>, task: Seq<char>, i: int)
    requires
        planned_subtasks(s, task),
        planner::speaking(planner::pieces(text::trimmed(task))) >= 2,
        0 <= i < planner::pieces(text::trimmed(task)).len(),
        text::trimmed(planner::pieces(text::trimmed(task))[i]).len() > 0,
    ensures
        s.len() == planner::speaking(planner::pieces(text::trimmed(task))),
        exists|k: int|
            0 <= k < s.len() && (#[trigger] s[k]).description@ == text::trimmed(
                planner::pieces(text::trimmed(task))[i],
            ),
{
    planner::law_every_clause_is_a_subtask(task);
    let k = planner::speaking(planner::pieces(text::trimmed(task)).take(i)) as int;
    assert(text::trimmed(planner::pieces(text::trimmed(task))[i]).len() > 0);
    assert(s[k].description@ == planner::planned(task)[k]);
}

/// A task is handed on as it was given, with its id and its constraints: as research
/// where a research plan was made for it and there are platforms, with one subtask for
/// each platform, and else with one for each clause.
pub proof fn law_tasks_are_handed_on_as_given(
    a: ChatAgent,
    task: Seq<char>,
    message_id: Seq<char>,
    constraints: Vec<String>,
    platforms: Seq<ResearchSubTask>,
    research: Option<ResearchPlan>,
    plain: Handoff,
    r: Handoff,
)
    requires
        a.hands(task, message_id, constraints, plain),
        a.hands_to(task, message_id, constraints, platforms, research, r),
    ensures
        plain.task_description@ == task,
        plain.originating_message_id@ == message_id,
        plain.constraints == constraints,
        plain.research_plan is None,
        plain.subtasks@.len() == planner::planned(task).len(),
        r.task_description@ == task,
        r.originating_message_id@ == message_id,
        r.constraints == constraints,
        r.research_plan is Some <==> platforms.len() > 0 && research is Some
            && research->0.is_research,
        r.research_plan is Some ==> r.research_plan == research && r.subtasks@.len()
            == research->0.platforms@.len(),
        r.research_plan is None ==> {
            &&& r.subtasks@.len() == plain.subtasks@.len()
            &&& forall|i: int|
                0 <= i < r.subtasks@.len() ==> (#[trigger] r.subtasks@[i]).description@
                    == plain.subtasks@[i].description@ && r.subtasks@[i].id@
                    == plain.subtasks@[i].id@
        },
{
}

/// Research is handed on with the whole plan and a subtask for each platform.
pub proof fn law_research_is_handed_on_whole(
    a: ChatAgent,
    task: Seq<char>,
    message_id: Seq<char>,
    plan: ResearchPlan,
    r: Handoff,
    i: int,
)
    requires
        a.hands_research(task, message_id, plan, r),
        0 <= i < plan.platforms@.len(),
    ensures
        r.task_description@ == task,
        r.originating_message_id@ == message_id,
        r.research_plan == Some(plan),
        r.subtasks@.len() == plan.platforms@.len(),
        r.subtasks@[i].id@ == plan.platforms@[i].id@,
        text::occurs(r.subtasks@[i].description@, plan.platforms@[i].platform@),
        text::occurs(r.subtasks@[i].description@, plan.platforms@[i].query@),
{
    handoff::law_every_platform_is_a_subtask(r.subtasks@, plan, i);
}

/// What was made of a message is recalled for the same message after the same
/// conversation, as long as there is a memory; where nothing was made of it, nothing is.
pub proof fn law_intents_are_remembered(
    a: ChatAgent,
    message: Seq<char>,
    history: Seq<ConversationMessage>,
    answer: Option<Intent>,
    mid: ChatAgent,
    r: Option<Intent>,
)
    requires
        a.classify_cache is Some,
        a.remembers(message, history, answer, mid),
        mid.recalls(message, history, r),
    ensures
        answer is Some ==> r == answer,
        mid.config == a.config,
        mid.system_prompt == a.system_prompt,
        mid.classify_cache is Some,
        answer is None ==> a.recalls(message, history, r),
{
}

/// Without a memory nothing is recalled.
pub proof fn law_nothing_is_recalled_without_a_memory(
    a: ChatAgent,
    message: Seq<char>,
    history: Seq<ConversationMessage>,
    r: Option<Intent>,
)
    requires
        a.classify_cache is None,
        a.recalls(message, history, r),
    ensures
        r is None,
{
}

/// Where a plan has nothing to tell of its todos, a result that did not fail is told as
/// without one, and a failure is told as one without research.
pub proof fn law_plans_without_findings_are_told_plainly(r: BrowserResult)
    requires
        r.key_findings@.len() == 0,
    ensures
        r.status != BrowserStatus::Failed ==> reply_text(true, r) == reply_text(false, r),
        r.findings@.len() == 0 ==> reply_text(true, r) == reply_text(false, r),
{
}

/// One of a thing is told in the singular, and any other number of it in the plural.
pub proof fn law_counts_are_told_in_the_right_number(n: nat)
    ensures
        n == 1 ==> plural(n).len() == 0,
        n != 1 ==> plural(n) == "s"@,
{
    reveal_strlit("");
}

} // verus!
