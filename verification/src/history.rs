//! The conversation between the agent and the model.
//!
//! A conversation that grew too long is cut back: after a navigation to its head
//! and the notes of the user, and on one page to the last few steps. Notes of the
//! user are never lost.

use vstd::prelude::*;
use crate::json;
use crate::text;

verus! {

/// What a note of the user begins with.
pub const USER_NOTE_PREFIX: &'static str = "[user note while task is running]";

/// One message.
#[derive(Debug, PartialEq, Eq)]
pub struct HistoryMessage {
    pub role: Option<String>,
    pub content: Option<String>,
    /// The call that a message of a tool answers.
    pub tool_call_id: Option<String>,
    /// The message as it came from the model, as JSON text.
    pub raw: Option<String>,
}

impl Clone for HistoryMessage {
    fn clone(&self) -> (r: Self)
        ensures
            r == *self,
    {
        HistoryMessage {
            role: text::opt_owned(&self.role),
            content: text::opt_owned(&self.content),
            tool_call_id: text::opt_owned(&self.tool_call_id),
            raw: text::opt_owned(&self.raw),
        }
    }
}

impl HistoryMessage {
    pub open spec fn has_role(self, role: Seq<char>) -> bool {
        self.role is Some && self.role->0@ == role
    }

    /// A message of the given role with the given content, and nothing else.
    pub open spec fn says(self, role: Seq<char>, content: Seq<char>) -> bool {
        &&& self.has_role(role)
        &&& self.content is Some
        &&& self.content->0@ == content
        &&& self.tool_call_id is None
        &&& self.raw is None
    }

    /// The answer of a tool to the given call.
    pub open spec fn answers(self, call_id: Seq<char>, content: Seq<char>) -> bool {
        &&& self.has_role("tool"@)
        &&& self.content is Some
        &&& self.content->0@ == content
        &&& self.tool_call_id is Some
        &&& self.tool_call_id->0@ == call_id
        &&& self.raw is None
    }

    /// A note that the user sent while the task was running.
    pub open spec fn is_note(self) -> bool {
        &&& self.has_role("user"@)
        &&& self.content is Some
        &&& USER_NOTE_PREFIX@.is_prefix_of(self.content->0@)
    }

    /// A step: a message of the model or of a tool.
    pub open spec fn is_step(self) -> bool {
        self.has_role("assistant"@) || self.has_role("tool"@)
    }

    fn role_is(&self, role: &str) -> (r: bool)
        ensures
            r == self.has_role(role@),
    {
        match &self.role {
            Some(s) => text::same(s.as_str(), role),
            None => false,
        }
    }

    fn test_note(&self) -> (r: bool)
        ensures
            r == self.is_note(),
    {
        match &self.content {
            Some(c) => self.role_is("user") && text::starts_with(c.as_str(), USER_NOTE_PREFIX),
            None => false,
        }
    }

    fn test_step(&self) -> (r: bool)
        ensures
            r == self.is_step(),
    {
        self.role_is("assistant") || self.role_is("tool")
    }

    /// The message with another content.
    pub open spec fn reworded(self, other: HistoryMessage, content: Seq<char>) -> bool {
        &&& self.role == other.role
        &&& self.tool_call_id == other.tool_call_id
        &&& self.content is Some
        &&& self.content->0@ == content
        &&& text::opt_view(self.raw) == match other.raw {
            Some(raw) => Some(json::with_text(raw@, "content"@, content)),
            None => None,
        }
    }

    /// Replaces the content.
    pub fn set_content(&mut self, content: &str)
        ensures
            final(self).reworded(*old(self), content@),
    {
        let raw = match &self.raw {
            Some(raw) => Some(json::set_text(raw.as_str(), "content", content)),
            None => None,
        };
        self.raw = raw;
        self.content = Some(text::owned(content));
    }

    pub fn system(content: &str) -> (r: Self)
        ensures
            r.says("system"@, content@),
    {
        HistoryMessage {
            role: Some(text::owned("system")),
            content: Some(text::owned(content)),
            tool_call_id: None,
            raw: None,
        }
    }

    pub fn user(content: &str) -> (r: Self)
        ensures
            r.says("user"@, content@),
    {
        HistoryMessage {
            role: Some(text::owned("user")),
            content: Some(text::owned(content)),
            tool_call_id: None,
            raw: None,
        }
    }

    pub fn tool(call_id: &str, content: &str) -> (r: Self)
        ensures
            r.answers(call_id@, content@),
    {
        HistoryMessage {
            role: Some(text::owned("tool")),
            content: Some(text::owned(content)),
            tool_call_id: Some(text::owned(call_id)),
            raw: None,
        }
    }
}

/// The conversation of one task.
#[derive(Debug)]
pub struct History {
    pub messages: Vec<HistoryMessage>,
}

/// How many messages are steps.
pub open spec fn count_steps(s: Seq<HistoryMessage>) -> nat
    decreases s.len(),
{
    if s.len() == 0 {
        0
    } else {
        count_steps(s.drop_last()) + if s.last().is_step() {
            1nat
        } else {
            0nat
        }
    }
}

/// The messages without the first `n` steps.
pub open spec fn without_steps(s: Seq<HistoryMessage>, n: nat) -> Seq<HistoryMessage>
    decreases s.len(),
{
    if s.len() == 0 {
        s
    } else {
        let before = without_steps(s.drop_last(), n);
        if s.last().is_step() && count_steps(s.drop_last()) < n {
            before
        } else {
            before.push(s.last())
        }
    }
}

/// The messages after a cut back to the first `keep` and the notes behind them.
pub open spec fn truncated(s: Seq<HistoryMessage>, keep: nat) -> Seq<HistoryMessage> {
    if s.len() <= keep {
        s
    } else {
        s.take(keep as int) + s.skip(keep as int).filter(|m: HistoryMessage| m.is_note())
    }
}

/// The messages after a cut back to the last `2 * k` steps.
pub open spec fn trimmed(s: Seq<HistoryMessage>, k: nat) -> Seq<HistoryMessage> {
    if count_steps(s) > 2 * k {
        without_steps(s, (count_steps(s) - 2 * k) as nat)
    } else {
        s
    }
}

/// The content of the first message of the user that has one.
pub open spec fn first_user_content(s: Seq<HistoryMessage>) -> Option<Seq<char>>
    decreases s.len(),
{
    if s.len() == 0 {
        None
    } else if s[0].has_role("user"@) && s[0].content is Some {
        Some(s[0].content->0@)
    } else {
        first_user_content(s.drop_first())
    }
}

/// The content of the first message of the user, where it has one.
pub open spec fn task_content(s: Seq<HistoryMessage>) -> Option<Seq<char>>
    decreases s.len(),
{
    if s.len() == 0 {
        None
    } else if s[0].has_role("user"@) {
        text::opt_view(s[0].content)
    } else {
        task_content(s.drop_first())
    }
}

/// A text without `Task: ` at its start.
pub open spec fn task_of(content: Seq<char>) -> Seq<char> {
    if "Task: "@.is_prefix_of(content) {
        content.skip("Task: "@.len() as int)
    } else {
        content
    }
}

/// Removes `Task: ` from the start of a text.
pub fn strip_task(content: &str) -> (r: String)
    ensures
        r@ == task_of(content@),
{
    if text::starts_with(content, "Task: ") {
        let n: usize = content.unicode_len();
        let m: usize = "Task: ".unicode_len();
        assert(content@.subrange(m as int, n as int) == content@.skip(m as int));
        text::owned(content.substring_char(m, n))
    } else {
        text::owned(content)
    }
}

impl History {
    /// The conversation at the start of a task.
    pub fn new(system_prompt: &str, task: &str) -> (r: Self)
        ensures
            r.messages@.len() == 2,
            r.messages@[0].says("system"@, system_prompt@),
            r.messages@[1].says("user"@, "Task: "@ + task@),
    {
        let mut line = text::owned("Task: ");
        line.append(task);
        let mut messages: Vec<HistoryMessage> = Vec::new();
        messages.push(HistoryMessage::system(system_prompt));
        messages.push(HistoryMessage::user(line.as_str()));
        History { messages }
    }

    pub fn push(&mut self, m: HistoryMessage)
        ensures
            final(self).messages@ == old(self).messages@.push(m),
    {
        self.messages.push(m);
    }

    /// Adds a message of the user's role.
    pub fn push_user(&mut self, content: &str)
        ensures
            final(self).messages@.len() == old(self).messages@.len() + 1,
            final(self).messages@.drop_last() == old(self).messages@,
            final(self).messages@.last().says("user"@, content@),
    {
        self.messages.push(HistoryMessage::user(content));
        assert(self.messages@.drop_last() == old(self).messages@);
    }

    /// Adds the answer of a tool.
    pub fn push_tool(&mut self, call_id: &str, content: &str)
        ensures
            final(self).messages@.len() == old(self).messages@.len() + 1,
            final(self).messages@.drop_last() == old(self).messages@,
            final(self).messages@.last().answers(call_id@, content@),
    {
        self.messages.push(HistoryMessage::tool(call_id, content));
        assert(self.messages@.drop_last() == old(self).messages@);
    }

    /// A copy of the messages.
    pub fn snapshot(&self) -> (r: Vec<HistoryMessage>)
        ensures
            r@ == self.messages@,
    {
        let mut out: Vec<HistoryMessage> = Vec::new();
        let mut i: usize = 0;
        while i < self.messages.len()
            invariant
                i <= self.messages@.len(),
                out@ == self.messages@.take(i as int),
            decreases self.messages@.len() - i,
        {
            out.push(self.messages[i].clone());
            i += 1;
            assert(self.messages@.take(i as int) == self.messages@.take(i - 1).push(
                self.messages@[i - 1],
            ));
        }
        assert(self.messages@.take(self.messages@.len() as int) == self.messages@);
        out
    }

    /// Cuts the conversation back to its first `keep_front` messages and the notes
    /// of the user behind them.
    pub fn truncate_preserving_user_notes(&mut self, keep_front: usize)
        ensures
            final(self).messages@ == truncated(old(self).messages@, keep_front as nat),
    {
        let n: usize = self.messages.len();
        if n <= keep_front {
            return;
        }
        let ghost all = self.messages@;
        let ghost rest = all.skip(keep_front as int);
        let ghost keep = |m: HistoryMessage| m.is_note();
        let mut out: Vec<HistoryMessage> = Vec::new();
        let mut i: usize = 0;
        while i < keep_front
            invariant
                self.messages@ == all,
                keep_front < n == all.len(),
                i <= keep_front,
                out@ == all.take(i as int),
            decreases keep_front - i,
        {
            out.push(self.messages[i].clone());
            i += 1;
            assert(all.take(i as int) == all.take(i - 1).push(all[i - 1]));
        }
        let ghost head = out@;
        proof {
            reveal(Seq::filter);
            assert(rest.take(0).filter(keep) == Seq::<HistoryMessage>::empty());
        }
        while i < n
            invariant
                self.messages@ == all,
                keep_front <= i <= n == all.len(),
                rest == all.skip(keep_front as int),
                keep == (|m: HistoryMessage| m.is_note()),
                out@ == head + rest.take(i - keep_front).filter(keep),
            decreases n - i,
        {
            proof {
                reveal(Seq::filter);
                assert(rest.take(i - keep_front + 1).drop_last() == rest.take(i - keep_front));
                assert(rest.take(i - keep_front + 1).last() == all[i as int]);
            }
            if self.messages[i].test_note() {
                out.push(self.messages[i].clone());
            }
            i += 1;
        }
        assert(rest.take(n - keep_front) == rest);
        self.messages = out;
    }

    fn step_count(&self) -> (r: usize)
        ensures
            r == count_steps(self.messages@),
    {
        let mut n: usize = 0;
        let mut i: usize = 0;
        while i < self.messages.len()
            invariant
                i <= self.messages@.len(),
                n <= i,
                n == count_steps(self.messages@.take(i as int)),
            decreases self.messages@.len() - i,
        {
            assert(self.messages@.take(i + 1).drop_last() == self.messages@.take(i as int));
            assert(self.messages@.take(i + 1).last() == self.messages@[i as int]);
            if self.messages[i].test_step() {
                n += 1;
            }
            i += 1;
        }
        assert(self.messages@.take(self.messages@.len() as int) == self.messages@);
        n
    }

    /// Cuts the conversation back to its last `2 * k` steps; everything else stays.
    pub fn trim_in_page_history(&mut self, k: usize)
        requires
            2 * k <= usize::MAX,
        ensures
            final(self).messages@ == trimmed(old(self).messages@, k as nat),
    {
        let steps: usize = self.step_count();
        let keep: usize = k * 2;
        if steps <= keep {
            return;
        }
        let surplus: usize = steps - keep;
        let ghost all = self.messages@;
        let mut out: Vec<HistoryMessage> = Vec::new();
        let mut seen: usize = 0;
        let mut i: usize = 0;
        while i < self.messages.len()
            invariant
                self.messages@ == all,
                i <= all.len(),
                seen <= i,
                seen == count_steps(all.take(i as int)),
                out@ == without_steps(all.take(i as int), surplus as nat),
            decreases all.len() - i,
        {
            assert(all.take(i + 1).drop_last() == all.take(i as int));
            assert(all.take(i + 1).last() == all[i as int]);
            let step = self.messages[i].test_step();
            if !step || seen >= surplus {
                out.push(self.messages[i].clone());
            }
            if step {
                seen += 1;
            }
            i += 1;
        }
        assert(all.take(all.len() as int) == all);
        self.messages = out;
    }

    /// The content of the first message of the user, where it has one.
    pub fn task_message(&self) -> (r: Option<String>)
        ensures
            text::opt_view(r) == task_content(self.messages@),
    {
        let mut i: usize = 0;
        assert(self.messages@.skip(0) == self.messages@);
        while i < self.messages.len()
            invariant
                i <= self.messages@.len(),
                task_content(self.messages@) == task_content(self.messages@.skip(i as int)),
            decreases self.messages@.len() - i,
        {
            let m = &self.messages[i];
            assert(self.messages@.skip(i as int)[0] == *m);
            assert(self.messages@.skip(i as int).drop_first() == self.messages@.skip(i + 1));
            if m.role_is("user") {
                return text::opt_owned(&m.content);
            }
            i += 1;
        }
        None
    }

    /// The content of the first message of the user that has one.
    pub fn first_user(&self) -> (r: Option<String>)
        ensures
            text::opt_view(r) == first_user_content(self.messages@),
    {
        let mut i: usize = 0;
        assert(self.messages@.skip(0) == self.messages@);
        while i < self.messages.len()
            invariant
                i <= self.messages@.len(),
                first_user_content(self.messages@) == first_user_content(
                    self.messages@.skip(i as int),
                ),
            decreases self.messages@.len() - i,
        {
            let m = &self.messages[i];
            assert(self.messages@.skip(i as int)[0] == *m);
            assert(self.messages@.skip(i as int).drop_first() == self.messages@.skip(i + 1));
            if m.role_is("user") {
                if let Some(c) = &m.content {
                    return Some(c.clone());
                }
            }
            i += 1;
        }
        None
    }
}

// ---------------------------------------------------------------------------
// Laws
// ---------------------------------------------------------------------------

/// No note of the user is lost by a cut back after a navigation: each stays, in
/// the order in which they were sent, and nothing else stays but the head.
pub proof fn law_notes_survive_truncation(s: Seq<HistoryMessage>, keep: nat)
    ensures
        truncated(s, keep).filter(|m: HistoryMessage| m.is_note()) == s.filter(
            |m: HistoryMessage| m.is_note(),
        ),
        s.len() > keep ==> forall|i: int|
            keep <= i < truncated(s, keep).len() ==> (#[trigger] truncated(s, keep)[i]).is_note(),
        s.len() > keep ==> truncated(s, keep).take(keep as int) == s.take(keep as int),
{
    let p = |m: HistoryMessage| m.is_note();
    if s.len() > keep {
        let head = s.take(keep as int);
        let rest = s.skip(keep as int);
        assert(s == head + rest);
        Seq::filter_distributes_over_add(head, rest, p);
        let notes = rest.filter(p);
        Seq::filter_distributes_over_add(head, notes, p);
        lemma_filter_stays(rest, p);
        broadcast use vstd::seq_lib::group_filter_ensures;

        assert forall|i: int| keep <= i < truncated(s, keep).len() implies (
        #[trigger] truncated(s, keep)[i]).is_note() by {
            assert(truncated(s, keep)[i] == notes[i - keep]);
            assert(p(notes[i - keep]));
        }
    }
}

proof fn lemma_filter_stays(s: Seq<HistoryMessage>, p: spec_fn(HistoryMessage) -> bool)
    ensures
        s.filter(p).filter(p) == s.filter(p),
    decreases s.len(),
{
    reveal(Seq::filter);
    if s.len() > 0 {
        lemma_filter_stays(s.drop_last(), p);
        if p(s.last()) {
            let f = s.drop_last().filter(p);
            assert(f.push(s.last()).drop_last() == f);
        }
    }
}

proof fn lemma_without_steps(s: Seq<HistoryMessage>, n: nat)
    ensures
        without_steps(s, n).filter(|m: HistoryMessage| !m.is_step()) == s.filter(
            |m: HistoryMessage| !m.is_step(),
        ),
        count_steps(without_steps(s, n)) == if count_steps(s) <= n {
            0
        } else {
            count_steps(s) - n
        },
    decreases s.len(),
{
    reveal(Seq::filter);
    if s.len() > 0 {
        lemma_without_steps(s.drop_last(), n);
        let before = without_steps(s.drop_last(), n);
        assert(before.push(s.last()).drop_last() == before);
    }
}

/// A cut back on one page drops nothing but the oldest steps: every other message
/// stays in its order, and at most `2 * k` steps are left.
pub proof fn law_trimming_drops_only_old_steps(s: Seq<HistoryMessage>, k: nat)
    ensures
        trimmed(s, k).filter(|m: HistoryMessage| !m.is_step()) == s.filter(
            |m: HistoryMessage| !m.is_step(),
        ),
        count_steps(trimmed(s, k)) == if count_steps(s) > 2 * k {
            2 * k
        } else {
            count_steps(s)
        },
{
    if count_steps(s) > 2 * k {
        lemma_without_steps(s, (count_steps(s) - 2 * k) as nat);
    }
}

proof fn lemma_filter_len(s: Seq<HistoryMessage>, p: spec_fn(HistoryMessage) -> bool)
    ensures
        s.filter(p).len() <= s.len(),
    decreases s.len(),
{
    reveal(Seq::filter);
    if s.len() > 0 {
        lemma_filter_len(s.drop_last(), p);
    }
}

/// A cut back never makes a conversation longer, and doing it twice does nothing
/// more.
pub proof fn law_cutting_back_settles(s: Seq<HistoryMessage>, keep: nat, k: nat)
    ensures
        truncated(s, keep).len() <= s.len(),
        truncated(truncated(s, keep), keep) == truncated(s, keep),
        trimmed(trimmed(s, k), k) == trimmed(s, k),
{
    let p = |m: HistoryMessage| m.is_note();
    if s.len() > keep {
        let rest = s.skip(keep as int);
        lemma_filter_len(rest, p);
        lemma_filter_stays(rest, p);
        let t = truncated(s, keep);
        assert(t.take(keep as int) == s.take(keep as int));
        assert(t.skip(keep as int) == rest.filter(p));
    }
    law_trimming_drops_only_old_steps(s, k);
}

proof fn lemma_first_stays(s: Seq<HistoryMessage>, n: nat)
    requires
        s.len() > 0,
        !s[0].is_step(),
    ensures
        without_steps(s, n).len() > 0,
        without_steps(s, n)[0] == s[0],
    decreases s.len(),
{
    if s.len() > 1 {
        lemma_first_stays(s.drop_last(), n);
    } else {
        assert(without_steps(s.drop_last(), n).len() == 0);
    }
}

/// The head of the conversation, with the plan in it, is never cut off.
pub proof fn law_head_stays(s: Seq<HistoryMessage>, keep: nat, k: nat)
    requires
        s.len() > 0,
        !s[0].is_step(),
        keep > 0,
    ensures
        truncated(s, keep).len() > 0,
        truncated(s, keep)[0] == s[0],
        trimmed(s, k).len() > 0,
        trimmed(s, k)[0] == s[0],
{
    if count_steps(s) > 2 * k {
        lemma_first_stays(s, (count_steps(s) - 2 * k) as nat);
    }
}

/// The latest steps are those that stay: the end of a conversation with no more steps
/// than are kept is the end of what is left, message by message.
pub proof fn law_the_latest_steps_stay(s: Seq<HistoryMessage>, k: nat, i: int)
    requires
        0 <= i <= s.len(),
        count_steps(s.skip(i)) <= 2 * k,
    ensures
        s.skip(i).is_suffix_of(trimmed(s, k)),
{
    if count_steps(s) > 2 * k {
        lemma_count_split(s, i);
        lemma_suffix_stays(s, (count_steps(s) - 2 * k) as nat, i);
    } else {
        assert(s.skip(i) =~= s.subrange(i, s.len() as int));
    }
}

proof fn lemma_count_split(s: Seq<HistoryMessage>, i: int)
    requires
        0 <= i <= s.len(),
    ensures
        count_steps(s) == count_steps(s.take(i)) + count_steps(s.skip(i)),
    decreases s.len() - i,
{
    if i == s.len() {
        assert(s.take(i) == s);
        assert(s.skip(i).len() == 0);
    } else {
        let t = s.drop_last();
        lemma_count_split(t, i);
        assert(t.take(i) == s.take(i));
        assert(s.skip(i).drop_last() == t.skip(i));
        assert(s.skip(i).last() == s.last());
    }
}

proof fn lemma_suffix_stays(s: Seq<HistoryMessage>, n: nat, i: int)
    requires
        0 <= i <= s.len(),
        n <= count_steps(s.take(i)),
    ensures
        s.skip(i).is_suffix_of(without_steps(s, n)),
    decreases s.len(),
{
    if i < s.len() {
        let t = s.drop_last();
        lemma_count_split(t, i);
        assert(t.take(i) == s.take(i));
        lemma_suffix_stays(t, n, i);
        let before = without_steps(t, n);
        assert(without_steps(s, n) == before.push(s.last()));
        let after = without_steps(s, n);
        let m = s.len() - i;
        assert(t.skip(i) =~= before.subrange(before.len() - (m - 1), before.len() as int));
        assert forall|j: int| 0 <= j < m implies #[trigger] s.skip(i)[j] == after[after.len() - m
            + j] by {
            if j < m - 1 {
                assert(t.skip(i)[j] == before[before.len() - (m - 1) + j]);
            }
        }
        assert(s.skip(i) =~= after.subrange(after.len() - m, after.len() as int));
    } else {
        assert(s.skip(i).len() == 0);
    }
}

/// A step is a message of the model or of a tool, and a note is a message of the user
/// that bears the mark of a note.
pub proof fn law_steps_and_notes_are_told_by_their_role(m: HistoryMessage)
    ensures
        m.is_step() <==> m.role is Some && (m.role->0@ == "assistant"@ || m.role->0@ == "tool"@),
        m.is_note() <==> {
            &&& m.role is Some
            &&& m.role->0@ == "user"@
            &&& m.content is Some
            &&& "[user note while task is running]"@.is_prefix_of(m.content->0@)
        },
        m.is_note() ==> !m.is_step(),
{
    reveal_strlit("assistant");
    reveal_strlit("tool");
    reveal_strlit("user");
    assert("assistant"@[0] == 'a');
    assert("tool"@[0] == 't');
    assert("user"@[0] == 'u');
}

/// The task of a conversation is what its first message of the user says, and what the
/// user said first is the first of their messages that says anything.
pub proof fn law_the_task_is_what_the_user_said_first(s: Seq<HistoryMessage>, i: int)
    requires
        0 <= i < s.len(),
        s[i].has_role("user"@),
    ensures
        (forall|j: int| 0 <= j < i ==> !(#[trigger] s[j]).has_role("user"@)) ==> task_content(s)
            == text::opt_view(s[i].content),
        s[i].content is Some && (forall|j: int|
            0 <= j < i ==> !((#[trigger] s[j]).has_role("user"@) && s[j].content is Some))
            ==> first_user_content(s) == Some(s[i].content->0@),
    decreases s.len(),
{
    if i > 0 {
        let t = s.drop_first();
        assert(t[i - 1] == s[i]);
        assert forall|j: int| 0 <= j < i - 1 implies #[trigger] t[j] == s[j + 1] by {}
        law_the_task_is_what_the_user_said_first(t, i - 1);
    }
}

/// Where the user said nothing, there is no task.
pub proof fn law_without_the_user_there_is_no_task(s: Seq<HistoryMessage>)
    requires
        forall|j: int| 0 <= j < s.len() ==> !(#[trigger] s[j]).has_role("user"@),
    ensures
        task_content(s) is None,
        first_user_content(s) is None,
    decreases s.len(),
{
    if s.len() > 0 {
        assert forall|j: int| 0 <= j < s.drop_first().len() implies !(
        #[trigger] s.drop_first()[j]).has_role("user"@) by {
            assert(s.drop_first()[j] == s[j + 1]);
        }
        law_without_the_user_there_is_no_task(s.drop_first());
    }
}

/// The task is told to the model behind its mark, and the mark comes off again.
pub proof fn law_the_task_comes_back_from_its_message(task: Seq<char>, content: Seq<char>)
    ensures
        task_of("Task: "@ + task) == task,
        !"Task: "@.is_prefix_of(content) ==> task_of(content) == content,
        task_of(content).is_suffix_of(content),
{
    assert(("Task: "@ + task).skip("Task: "@.len() as int) =~= task);
    assert("Task: "@.is_prefix_of("Task: "@ + task));
}

/// A message that is worded anew keeps its role and the call that it answers, and says
/// the new words wherever it is read.
pub proof fn law_rewording_keeps_the_rest(
    m: HistoryMessage,
    before: HistoryMessage,
    content: Seq<char>,
)
    requires
        m.reworded(before, content),
    ensures
        m.content is Some,
        m.content->0@ == content,
        m.role == before.role,
        m.tool_call_id == before.tool_call_id,
        before.raw is Some ==> m.raw is Some && m.raw->0@ == json::with_text(
            before.raw->0@,
            "content"@,
            content,
        ),
        before.raw is None ==> m.raw is None,
{
}

/// What a message says it says in its content, under its role; an answer names the call
/// that it is for, and nothing else does.
pub proof fn law_messages_say_what_they_say(
    m: HistoryMessage,
    role: Seq<char>,
    id: Seq<char>,
    said: Seq<char>,
)
    ensures
        m.says(role, said) <==> {
            &&& m.role is Some && m.role->0@ == role
            &&& m.content is Some && m.content->0@ == said
            &&& m.tool_call_id is None
            &&& m.raw is None
        },
        m.answers(id, said) <==> {
            &&& m.role is Some && m.role->0@ == "tool"@
            &&& m.content is Some && m.content->0@ == said
            &&& m.tool_call_id is Some && m.tool_call_id->0@ == id
            &&& m.raw is None
        },
{
}

} // verus!
