//! The contract of a handoff, as checks that report what they find.
//!
//! A round trip keeps its contract when the right task was dispatched, the reply
//! reflects the result, the id of the message is kept, and the task was taken
//! apart finely enough.

use vstd::prelude::*;
use crate::chat_agent;
use crate::handoff::{BrowserResult, BrowserStatus, Handoff, KeyFinding};
use crate::planner;
use crate::text;
use crate::todo::{Evidence, Todo, TodoStatus};

verus! {

/// Nothing where the check holds, and what is wrong where it does not.
pub type AssertionResult = Result<(), String>;

/// Whether a check answers with the given error.
pub open spec fn answers(r: AssertionResult, error: Option<Seq<char>>) -> bool {
    match r {
        Ok(_) => error is None,
        Err(e) => error == Some(e@),
    }
}

// ---------------------------------------------------------------------------
// Todos
// ---------------------------------------------------------------------------

/// The evidence that a check goes by: the given one, or that of the todo.
pub open spec fn evidence_for(todo: Todo, evidence: Option<&Evidence>) -> Option<Evidence> {
    match evidence {
        Some(e) => Some(*e),
        None => todo.evidence,
    }
}

/// What is wrong with a todo that should be done.
pub open spec fn done_error(todo: Todo, evidence: Option<&Evidence>) -> Option<Seq<char>> {
    let head = "todo "@ + todo.id.0@;
    if !(todo.status is Done) {
        Some(head + " status is "@ + todo.status.spec_debug() + ", expected Done"@)
    } else {
        match evidence_for(todo, evidence) {
            None => Some(head + " status is Done but evidence is None"@),
            Some(e) => if e.worker_signature@.len() == 0 || e.planner_signature@.len() == 0 {
                Some(
                    head + " has empty signature: worker="@ + text::quoted(e.worker_signature@)
                        + ", planner="@ + text::quoted(e.planner_signature@),
                )
            } else if e.worker_signature@ != e.planner_signature@ {
                Some(
                    head + " evidence mismatch: worker_signature="@ + text::quoted(
                        e.worker_signature@,
                    ) + ", planner_signature="@ + text::quoted(e.planner_signature@),
                )
            } else {
                None
            },
        }
    }
}

/// Checks that a todo is done on evidence on which worker and planner agree.
pub fn assert_todo_done(todo: &Todo, evidence: Option<&Evidence>) -> (r: AssertionResult)
    ensures
        answers(r, done_error(*todo, evidence)),
{
    let mut out = text::owned("todo ");
    out.append(todo.id.0.as_str());
    match todo.status {
        TodoStatus::Done => {},
        _ => {
            out.append(" status is ");
            out.append(todo.status.debug_text().as_str());
            out.append(", expected Done");
            return Err(out);
        },
    }
    let e: &Evidence = match evidence {
        Some(e) => e,
        None => match &todo.evidence {
            Some(e) => e,
            None => {
                out.append(" status is Done but evidence is None");
                return Err(out);
            },
        },
    };
    if e.worker_signature.as_str().is_empty() || e.planner_signature.as_str().is_empty() {
        out.append(" has empty signature: worker=");
        out.append(text::quote(e.worker_signature.as_str()).as_str());
        out.append(", planner=");
        out.append(text::quote(e.planner_signature.as_str()).as_str());
        return Err(out);
    }
    if !text::same(e.worker_signature.as_str(), e.planner_signature.as_str()) {
        out.append(" evidence mismatch: worker_signature=");
        out.append(text::quote(e.worker_signature.as_str()).as_str());
        out.append(", planner_signature=");
        out.append(text::quote(e.planner_signature.as_str()).as_str());
        return Err(out);
    }
    Ok(())
}

/// The words in which a todo says why it was rejected.
pub open spec fn shown_reason(todo: Todo) -> Seq<char> {
    match todo.status {
        TodoStatus::Failed { reason } => reason@,
        _ => todo.status.spec_debug(),
    }
}

/// What is wrong with a todo that should have been rejected.
pub open spec fn rejected_error(todo: Todo, reason: Option<&str>) -> Option<Seq<char>> {
    let head = "todo "@ + todo.id.0@;
    if todo.status is Done {
        Some(head + " status is Done, expected non-Done (rejected)"@)
    } else if todo.attempts < 1 {
        Some(head + " attempts is "@ + text::decimal(todo.attempts as nat) + ", expected >= 1"@)
    } else {
        match reason {
            Some(fragment) => if text::occurs(shown_reason(todo), fragment@) {
                None
            } else {
                Some(
                    head + " rejected reason "@ + text::quoted(shown_reason(todo))
                        + " does not contain expected fragment "@ + text::quoted(fragment@),
                )
            },
            None => None,
        }
    }
}

/// Checks that a todo was tried and not accepted, for the given reason where one
/// is given.
pub fn assert_todo_rejected(todo: &Todo, reason: Option<&str>) -> (r: AssertionResult)
    ensures
        answers(r, rejected_error(*todo, reason)),
{
    let mut out = text::owned("todo ");
    out.append(todo.id.0.as_str());
    let done = match todo.status {
        TodoStatus::Done => true,
        _ => false,
    };
    if done {
        out.append(" status is Done, expected non-Done (rejected)");
        return Err(out);
    }
    if todo.attempts < 1 {
        out.append(" attempts is ");
        out.append(text::decimal_of(todo.attempts as u64).as_str());
        out.append(", expected >= 1");
        return Err(out);
    }
    if let Some(fragment) = reason {
        let shown = match &todo.status {
            TodoStatus::Failed { reason } => reason.clone(),
            _ => todo.status.debug_text(),
        };
        if !text::contains(shown.as_str(), fragment) {
            out.append(" rejected reason ");
            out.append(text::quote(shown.as_str()).as_str());
            out.append(" does not contain expected fragment ");
            out.append(text::quote(fragment).as_str());
            return Err(out);
        }
    }
    Ok(())
}

// ---------------------------------------------------------------------------
// Words
// ---------------------------------------------------------------------------

/// The lower-case forms of the words of a text.
pub open spec fn lowered_words(s: Seq<char>) -> Seq<Seq<char>> {
    text::words(s).map_values(|w: Seq<char>| text::unicode_lowercase(w))
}

/// Whether one of the words stands in the text.
pub open spec fn any_occurs(words: Seq<Seq<char>>, t: Seq<char>) -> bool {
    exists|i: int| 0 <= i < words.len() && text::occurs(t, #[trigger] words[i])
}

/// Words that say nothing of what a text is about.
pub open spec fn stopword(w: Seq<char>) -> bool {
    ||| w == "the"@
    ||| w == "and"@
    ||| w == "then"@
    ||| w == "with"@
    ||| w == "this"@
    ||| w == "that"@
    ||| w == "from"@
    ||| w == "your"@
    ||| w == "into"@
    ||| w == "have"@
    ||| w == "task"@
    ||| w == "result"@
    ||| w == "reply"@
    ||| w == "message"@
}

/// Whether a word, in lower case, stands in the text and says something: without
/// its punctuation it has four characters or more and is no stopword.
pub open spec fn telling(word: Seq<char>, t: Seq<char>) -> bool {
    let w = text::bare(word);
    w.len() >= 4 && !stopword(w) && text::occurs(t, w)
}

/// Whether one of the words is telling.
pub open spec fn any_telling(words: Seq<Seq<char>>, t: Seq<char>) -> bool {
    exists|i: int| 0 <= i < words.len() && telling(#[trigger] words[i], t)
}

/// Whether two texts share a telling word, whatever its letter case.
pub open spec fn overlap(source: Seq<char>, target: Seq<char>) -> bool {
    any_telling(lowered_words(source), text::unicode_lowercase(target))
}

/// The lower-case forms of the words of a text.
pub fn lower_words(s: &str) -> (r: Vec<String>)
    ensures
        text::views(r@) == lowered_words(s@),
{
    let words = text::split_whitespace(s);
    let ghost all = lowered_words(s@);
    let mut out: Vec<String> = Vec::new();
    let mut i: usize = 0;
    while i < words.len()
        invariant
            i <= words@.len(),
            text::views(words@) == text::words(s@),
            all == lowered_words(s@),
            text::views(out@) == all.take(i as int),
        decreases words@.len() - i,
    {
        let ghost before = out@;
        assert(text::views(words@)[i as int] == words@[i as int]@);
        out.push(words[i].as_str().to_lowercase());
        i += 1;
        assert(text::views(out@) == text::views(before).push(all[i - 1]));
        assert(all.take(i as int) == all.take(i - 1).push(all[i - 1]));
    }
    assert(all.take(all.len() as int) == all);
    out
}

/// Whether one of the words stands in the text.
pub fn contains_any(words: &Vec<String>, t: &str) -> (r: bool)
    ensures
        r == any_occurs(text::views(words@), t@),
{
    let mut i: usize = 0;
    while i < words.len()
        invariant
            i <= words@.len(),
            forall|j: int|
                0 <= j < i ==> !text::occurs(t@, #[trigger] text::views(words@)[j]),
        decreases words@.len() - i,
    {
        assert(text::views(words@)[i as int] == words@[i as int]@);
        if text::contains(t, words[i].as_str()) {
            return true;
        }
        i += 1;
    }
    false
}

fn is_stopword(w: &str) -> (r: bool)
    ensures
        r == stopword(w@),
{
    text::same(w, "the") || text::same(w, "and") || text::same(w, "then") || text::same(w, "with")
        || text::same(w, "this") || text::same(w, "that") || text::same(w, "from") || text::same(
        w,
        "your",
    ) || text::same(w, "into") || text::same(w, "have") || text::same(w, "task") || text::same(
        w,
        "result",
    ) || text::same(w, "reply") || text::same(w, "message")
}

/// Whether one of the words, given in lower case, is telling in a text, given in
/// lower case.
pub fn has_telling_word(words: &Vec<String>, t: &str) -> (r: bool)
    ensures
        r == any_telling(text::views(words@), t@),
{
    let mut i: usize = 0;
    while i < words.len()
        invariant
            i <= words@.len(),
            forall|j: int| 0 <= j < i ==> !telling(#[trigger] text::views(words@)[j], t@),
        decreases words@.len() - i,
    {
        assert(text::views(words@)[i as int] == words@[i as int]@);
        let w = text::strip_word(words[i].as_str());
        if w.unicode_len() >= 4 && !is_stopword(w) && text::contains(t, w) {
            return true;
        }
        i += 1;
    }
    false
}

/// Whether two texts share a telling word.
pub fn word_overlap(source: &str, target: &str) -> (r: bool)
    ensures
        r == overlap(source@, target@),
{
    let lower = target.to_lowercase();
    has_telling_word(&lower_words(source), lower.as_str())
}

// ---------------------------------------------------------------------------
// The handoff
// ---------------------------------------------------------------------------

/// Whether the task holds one of the words of the message.
pub open spec fn shares_word(message: Seq<char>, task: Seq<char>) -> bool {
    any_occurs(lowered_words(message), text::unicode_lowercase(task))
}

/// What is wrong with the task that was dispatched for a message.
pub open spec fn dispatch_error(message: Seq<char>, h: Handoff) -> Option<Seq<char>> {
    if h.task_description@.len() == 0 {
        Some(
            "handoff has empty task_description (user message was "@ + text::quoted(message)
                + ")"@,
        )
    } else if shares_word(message, h.task_description@) || planner::planned(message).len() > 0 {
        None
    } else {
        Some(
            "handoff task_description "@ + text::quoted(h.task_description@)
                + " shares no words with user message "@ + text::quoted(message),
        )
    }
}

/// Checks that a handoff carries the task of the message: it is not empty, and it
/// shares a word with the message unless the message can be planned by itself.
pub fn assert_correct_task_dispatched(user_message: &str, handoff: &Handoff) -> (r: AssertionResult)
    ensures
        answers(r, dispatch_error(user_message@, *handoff)),
{
    if handoff.task_description.as_str().is_empty() {
        let mut out = text::owned("handoff has empty task_description (user message was ");
        out.append(text::quote(user_message).as_str());
        out.append(")");
        return Err(out);
    }
    let lower = handoff.task_description.as_str().to_lowercase();
    if contains_any(&lower_words(user_message), lower.as_str()) {
        return Ok(());
    }
    if planner::plan(user_message).subtasks.len() > 0 {
        return Ok(());
    }
    let mut out = text::owned("handoff task_description ");
    out.append(text::quote(handoff.task_description.as_str()).as_str());
    out.append(" shares no words with user message ");
    out.append(text::quote(user_message).as_str());
    Err(out)
}

/// How much of a text a reply has to quote.
pub const FRAGMENT: usize = 30;

/// Whether the reply quotes the description of a finding.
pub open spec fn quotes_finding(s: Seq<KeyFinding>, reply: Seq<char>) -> bool {
    exists|i: int|
        0 <= i < s.len() && (#[trigger] s[i]).description@.len() > 0 && text::occurs(
            reply,
            s[i].description@,
        )
}

/// Whether a reply tells what came of a task that ran: there is nothing to tell,
/// or it quotes the summary or a finding, or it shares a telling word with the
/// summary.
pub open spec fn reflects(r: BrowserResult, reply: Seq<char>) -> bool {
    ||| r.summary@.len() == 0 && r.key_findings@.len() == 0
    ||| r.summary@.len() > 0 && text::occurs(reply, text::first_chars(r.summary@, FRAGMENT as nat))
    ||| quotes_finding(r.key_findings@, reply)
    ||| r.summary@.len() > 0 && overlap(r.summary@, reply)
}

/// Whether a reply tells why a task failed.
pub open spec fn explains(reason: Seq<char>, reply: Seq<char>) -> bool {
    ||| text::occurs(reply, text::first_chars(reason, FRAGMENT as nat))
    ||| overlap(reason, reply)
}

/// What is wrong with the reply to a result.
pub open spec fn reflection_error(r: BrowserResult, reply: Seq<char>) -> Option<Seq<char>> {
    if reply.len() == 0 {
        Some(
            "chat reply is empty for "@ + r.status.spec_debug() + " result (session "@
                + r.session_id@ + ")"@,
        )
    } else if r.status == BrowserStatus::Failed {
        if r.failure_reason@.len() == 0 {
            Some("Failed result has empty failure_reason (the user gets nothing to read)"@)
        } else if explains(r.failure_reason@, reply) {
            None
        } else {
            Some(
                "Failed reply does not quote the failure reason (reason: "@ + text::quoted(
                    r.failure_reason@,
                ) + ", reply: "@ + text::quoted(reply) + ")"@,
            )
        }
    } else if reflects(r, reply) {
        None
    } else {
        Some(
            "chat reply does not reflect the result summary (first 30 chars of summary: "@
                + text::quoted(text::first_chars(r.summary@, FRAGMENT as nat)) + ", reply: "@
                + text::quoted(reply) + ")"@,
        )
    }
}

fn quotes_any_finding(s: &Vec<KeyFinding>, reply: &str) -> (r: bool)
    ensures
        r == quotes_finding(s@, reply@),
{
    let mut i: usize = 0;
    while i < s.len()
        invariant
            i <= s@.len(),
            forall|j: int|
                0 <= j < i ==> !((#[trigger] s@[j]).description@.len() > 0 && text::occurs(
                    reply@,
                    s@[j].description@,
                )),
        decreases s@.len() - i,
    {
        if !s[i].description.as_str().is_empty() && text::contains(
            reply,
            s[i].description.as_str(),
        ) {
            return true;
        }
        i += 1;
    }
    false
}

/// Checks that a reply comes from its result: it quotes or paraphrases the summary
/// or a finding, or the reason of a failure.
pub fn assert_result_reflected_in_chat_reply(
    result: &BrowserResult,
    chat_reply: &str,
) -> (r: AssertionResult)
    ensures
        answers(r, reflection_error(*result, chat_reply@)),
{
    if chat_reply.is_empty() {
        let mut out = text::owned("chat reply is empty for ");
        out.append(result.status.debug_text());
        out.append(" result (session ");
        out.append(result.session_id.as_str());
        out.append(")");
        return Err(out);
    }
    if result.status == BrowserStatus::Failed {
        let reason = result.failure_reason.as_str();
        if reason.is_empty() {
            return Err(
                text::owned(
                    "Failed result has empty failure_reason (the user gets nothing to read)",
                ),
            );
        }
        if text::contains(chat_reply, text::take_chars(reason, FRAGMENT)) || word_overlap(
            reason,
            chat_reply,
        ) {
            return Ok(());
        }
        let mut out = text::owned("Failed reply does not quote the failure reason (reason: ");
        out.append(text::quote(reason).as_str());
        out.append(", reply: ");
        out.append(text::quote(chat_reply).as_str());
        out.append(")");
        return Err(out);
    }
    let summary = result.summary.as_str();
    if summary.is_empty() && result.key_findings.len() == 0 {
        return Ok(());
    }
    if !summary.is_empty() && text::contains(chat_reply, text::take_chars(summary, FRAGMENT)) {
        return Ok(());
    }
    if quotes_any_finding(&result.key_findings, chat_reply) {
        return Ok(());
    }
    if !summary.is_empty() && word_overlap(summary, chat_reply) {
        return Ok(());
    }
    let mut out = text::owned(
        "chat reply does not reflect the result summary (first 30 chars of summary: ",
    );
    out.append(text::quote(text::take_chars(summary, FRAGMENT)).as_str());
    out.append(", reply: ");
    out.append(text::quote(chat_reply).as_str());
    out.append(")");
    Err(out)
}

/// What is wrong with the id of a reply.
pub open spec fn id_error(h: Handoff, id: Seq<char>) -> Option<Seq<char>> {
    if h.originating_message_id@ == id {
        None
    } else {
        Some(
            "originating_message_id drift: handoff="@ + text::quoted(h.originating_message_id@)
                + ", reply="@ + text::quoted(id),
        )
    }
}

/// Checks that a reply carries the id of the message that its task came from.
pub fn assert_originating_message_id_preserved(
    handoff: &Handoff,
    chat_reply_originating_message_id: &str,
) -> (r: AssertionResult)
    ensures
        answers(r, id_error(*handoff, chat_reply_originating_message_id@)),
{
    let id = handoff.originating_message_id.as_str();
    if text::same(id, chat_reply_originating_message_id) {
        Ok(())
    } else {
        let mut out = text::owned("originating_message_id drift: handoff=");
        out.append(text::quote(id).as_str());
        out.append(", reply=");
        out.append(text::quote(chat_reply_originating_message_id).as_str());
        Err(out)
    }
}

/// What is wrong with the subtasks of a handoff.
pub open spec fn decomposition_error(h: Handoff, min_subtasks: nat) -> Option<Seq<char>> {
    if h.subtasks@.len() >= min_subtasks {
        None
    } else {
        Some(
            "task decomposition too coarse: got "@ + text::decimal(h.subtasks@.len())
                + " subtasks, expected at least "@ + text::decimal(min_subtasks)
                + " (handoff task: "@ + text::quoted(h.task_description@) + ")"@,
        )
    }
}

/// Checks that a task was taken apart into enough subtasks.
pub fn assert_subtask_decomposition(handoff: &Handoff, min_subtasks: usize) -> (r: AssertionResult)
    ensures
        answers(r, decomposition_error(*handoff, min_subtasks as nat)),
{
    if handoff.subtasks.len() >= min_subtasks {
        Ok(())
    } else {
        let mut out = text::owned("task decomposition too coarse: got ");
        out.append(text::decimal_of(handoff.subtasks.len() as u64).as_str());
        out.append(" subtasks, expected at least ");
        out.append(text::decimal_of(min_subtasks as u64).as_str());
        out.append(" (handoff task: ");
        out.append(text::quote(handoff.task_description.as_str()).as_str());
        out.append(")");
        Err(out)
    }
}

/// A list with one more error, where there is one.
pub open spec fn with_error(s: Seq<Seq<char>>, e: Option<Seq<char>>) -> Seq<Seq<char>> {
    match e {
        Some(t) => s.push(t),
        None => s,
    }
}

/// Everything that is wrong with a round trip, in the order of the checks.
pub open spec fn contract_errors(
    message: Seq<char>,
    h: Handoff,
    r: BrowserResult,
    reply: Seq<char>,
    id: Seq<char>,
    min_subtasks: nat,
) -> Seq<Seq<char>> {
    with_error(
        with_error(
            with_error(
                with_error(Seq::empty(), dispatch_error(message, h)),
                reflection_error(r, reply),
            ),
            id_error(h, id),
        ),
        decomposition_error(h, min_subtasks),
    )
}

/// What is wrong with a round trip.
pub open spec fn contract_error(
    message: Seq<char>,
    h: Handoff,
    r: BrowserResult,
    reply: Seq<char>,
    id: Seq<char>,
    min_subtasks: nat,
) -> Option<Seq<char>> {
    let errors = contract_errors(message, h, r, reply, id, min_subtasks);
    if errors.len() == 0 {
        None
    } else {
        Some(text::joined(errors, " | "@))
    }
}

fn note(errors: &mut Vec<String>, r: AssertionResult)
    ensures
        text::views(final(errors)@) == with_error(
            text::views(old(errors)@),
            match r {
                Ok(_) => None,
                Err(e) => Some(e@),
            },
        ),
{
    let ghost before = errors@;
    if let Err(e) = r {
        let ghost shown = e@;
        errors.push(e);
        assert(text::views(errors@) == text::views(before).push(shown));
    }
}

/// Checks a whole round trip, and reports everything that is wrong with it.
pub fn assert_handoff_contract(
    user_message: &str,
    handoff: &Handoff,
    result: &BrowserResult,
    chat_reply: &str,
    chat_reply_originating_message_id: &str,
    min_subtasks: usize,
) -> (r: AssertionResult)
    ensures
        answers(
            r,
            contract_error(
                user_message@,
                *handoff,
                *result,
                chat_reply@,
                chat_reply_originating_message_id@,
                min_subtasks as nat,
            ),
        ),
{
    let mut errors: Vec<String> = Vec::new();
    assert(text::views(errors@) == Seq::<Seq<char>>::empty());
    note(&mut errors, assert_correct_task_dispatched(user_message, handoff));
    note(&mut errors, assert_result_reflected_in_chat_reply(result, chat_reply));
    note(
        &mut errors,
        assert_originating_message_id_preserved(handoff, chat_reply_originating_message_id),
    );
    note(&mut errors, assert_subtask_decomposition(handoff, min_subtasks));
    assert(text::views(errors@).len() == errors@.len());
    if errors.len() == 0 {
        Ok(())
    } else {
        Err(text::join(&errors, " | "))
    }
}

// ---------------------------------------------------------------------------
// Laws
// ---------------------------------------------------------------------------

/// A round trip keeps its contract exactly when each of the four checks holds.
pub proof fn law_contract_is_the_four_checks(
    message: Seq<char>,
    h: Handoff,
    r: BrowserResult,
    reply: Seq<char>,
    id: Seq<char>,
    min_subtasks: nat,
)
    ensures
        contract_error(message, h, r, reply, id, min_subtasks) is None <==> {
            &&& dispatch_error(message, h) is None
            &&& reflection_error(r, reply) is None
            &&& id_error(h, id) is None
            &&& decomposition_error(h, min_subtasks) is None
        },
{
}

/// No empty reply passes.
pub proof fn law_silence_is_reported(r: BrowserResult)
    ensures
        reflection_error(r, Seq::empty()) is Some,
{
}

proof fn lemma_fragment_occurs(t: Seq<char>, p: Seq<char>, n: nat)
    requires
        text::occurs(t, p),
    ensures
        text::occurs(t, text::first_chars(p, n)),
{
    let i = choose|i: int| text::occurs_at(t, p, i);
    let f = text::first_chars(p, n);
    assert(t.subrange(i, i + f.len()) == t.subrange(i, i + p.len()).take(f.len() as int));
    assert(text::occurs_at(t, f, i));
}

proof fn lemma_prefix_occurs(t: Seq<char>, p: Seq<char>)
    requires
        p.is_prefix_of(t),
    ensures
        text::occurs(t, p),
{
    assert(text::occurs_at(t, p, 0));
}

/// The replies of the chat agent keep the contract: a task that ran is reflected
/// by its summary, and a task that failed is explained by its reason. A summary or
/// reason with white space around it, and findings without a summary, are left
/// out.
pub proof fn law_synthesized_replies_reflect_the_result(r: BrowserResult)
    requires
        r.status == BrowserStatus::Failed ==> r.failure_reason@.len() > 0 && text::trimmed(
            r.failure_reason@,
        ) == r.failure_reason@,
        r.status != BrowserStatus::Failed ==> text::trimmed(r.summary@) == r.summary@ && (
        r.summary@.len() > 0 || r.key_findings@.len() == 0),
    ensures
        reflection_error(r, chat_agent::reply_text(false, r)) is None,
{
    let reply = chat_agent::reply_text(false, r);
    chat_agent::law_replies_are_never_empty(false, r);
    if r.status == BrowserStatus::Failed {
        if r.findings@.len() > 0 {
            chat_agent::law_failed_research_names_its_reason(r);
        } else {
            chat_agent::law_failures_name_their_reason(false, r);
        }
        lemma_fragment_occurs(reply, r.failure_reason@, FRAGMENT as nat);
    } else if r.summary@.len() > 0 {
        if r.findings@.len() > 0 {
            chat_agent::lemma_research_begins_with_summary(r);
        }
        assert(r.summary@.is_prefix_of(reply));
        lemma_prefix_occurs(reply, r.summary@);
        lemma_fragment_occurs(reply, r.summary@, FRAGMENT as nat);
    }
}

/// A todo counts as done exactly where it says so and its evidence, given or its own,
/// bears one signature twice that is not empty; an error names the todo.
pub proof fn law_done_needs_one_signature_twice(todo: Todo, evidence: Option<&Evidence>)
    ensures
        done_error(todo, evidence) is None <==> {
            &&& todo.status is Done
            &&& evidence is Some || todo.evidence is Some
            &&& evidence matches Some(e) ==> e.worker_signature@ == e.planner_signature@
                && e.worker_signature@.len() > 0
            &&& evidence is None ==> (todo.evidence matches Some(e) ==> e.worker_signature@
                == e.planner_signature@ && e.worker_signature@.len() > 0)
        },
        done_error(todo, evidence) matches Some(e) ==> text::occurs(e, "todo "@ + todo.id.0@),
{
    broadcast use text::group_occurs;

}

/// A todo counts as rejected exactly where it is not done, was tried, and failed for a
/// reason that holds what was expected of it; an error names the todo.
pub proof fn law_rejected_needs_an_attempt_and_the_reason(todo: Todo, reason: Option<&str>)
    ensures
        rejected_error(todo, reason) is None <==> {
            &&& todo.status !is Done
            &&& todo.attempts >= 1
            &&& reason matches Some(fragment) ==> text::occurs(shown_reason(todo), fragment@)
        },
        todo.status matches TodoStatus::Failed { reason: why } ==> shown_reason(todo) == why@,
        rejected_error(todo, reason) matches Some(e) ==> text::occurs(e, "todo "@ + todo.id.0@),
{
    broadcast use text::group_occurs;

}

/// A task was dispatched right where it is not empty and either takes up a word of the
/// message, in whatever case, or the message is one that a plan can be made of.
pub proof fn law_dispatched_tasks_take_up_the_message(message: Seq<char>, h: Handoff, i: int)
    ensures
        h.task_description@.len() == 0 ==> dispatch_error(message, h) is Some,
        h.task_description@.len() > 0 && planner::planned(message).len() > 0 ==> dispatch_error(
            message,
            h,
        ) is None,
        h.task_description@.len() > 0 && 0 <= i < text::words(message).len() && text::occurs(
            text::unicode_lowercase(h.task_description@),
            text::unicode_lowercase(text::words(message)[i]),
        ) ==> dispatch_error(message, h) is None,
        h.task_description@.len() > 0 && planner::planned(message).len() == 0 && (forall|k: int|
            0 <= k < text::words(message).len() ==> !text::occurs(
                text::unicode_lowercase(h.task_description@),
                text::unicode_lowercase(#[trigger] text::words(message)[k]),
            )) ==> dispatch_error(message, h) is Some,
{
    let lowered = lowered_words(message);
    let words = text::words(message);
    assert forall|k: int| 0 <= k < words.len() implies #[trigger] lowered[k]
        == text::unicode_lowercase(words[k]) by {}
    if 0 <= i < words.len() {
        assert(lowered[i] == text::unicode_lowercase(words[i]));
    }
    if any_occurs(lowered, text::unicode_lowercase(h.task_description@)) {
        let k = choose|k: int|
            0 <= k < lowered.len() && text::occurs(
                text::unicode_lowercase(h.task_description@),
                #[trigger] lowered[k],
            );
        assert(lowered[k] == text::unicode_lowercase(words[k]));
    }
}

/// A reply reflects its result where it quotes it: the summary or a finding of one that
/// came to something, and the reason of one that failed. A failure without a reason is
/// never reflected.
pub proof fn law_quotes_reflect_the_result(r: BrowserResult, reply: Seq<char>, i: int)
    requires
        reply.len() > 0,
    ensures
        r.status == BrowserStatus::Failed && r.failure_reason@.len() > 0 && text::occurs(
            reply,
            r.failure_reason@,
        ) ==> reflection_error(r, reply) is None,
        r.status == BrowserStatus::Failed && r.failure_reason@.len() == 0 ==> reflection_error(
            r,
            reply,
        ) is Some,
        r.status != BrowserStatus::Failed && text::occurs(reply, r.summary@) && r.summary@.len() > 0
            ==> reflection_error(r, reply) is None,
        r.status != BrowserStatus::Failed && r.summary@.len() == 0 && r.key_findings@.len() == 0
            ==> reflection_error(r, reply) is None,
        r.status != BrowserStatus::Failed && 0 <= i < r.key_findings@.len()
            && r.key_findings@[i].description@.len() > 0 && text::occurs(
            reply,
            r.key_findings@[i].description@,
        ) ==> reflection_error(r, reply) is None,
{
    if text::occurs(reply, r.failure_reason@) {
        lemma_fragment_occurs(reply, r.failure_reason@, FRAGMENT as nat);
    }
    if text::occurs(reply, r.summary@) {
        lemma_fragment_occurs(reply, r.summary@, FRAGMENT as nat);
    }
}

/// A reply that shares nothing with the summary of its result does not reflect it: its
/// first thirty characters do not occur, no finding is quoted, and no word of at least
/// four characters is taken up.
pub proof fn law_unrelated_replies_are_reported(r: BrowserResult, reply: Seq<char>)
    requires
        r.status != BrowserStatus::Failed,
        r.summary@.len() > 0,
        !text::occurs(reply, text::first_chars(r.summary@, 30)),
        forall|i: int|
            0 <= i < r.key_findings@.len() ==> (#[trigger] r.key_findings@[i]).description@.len()
                == 0 || !text::occurs(reply, r.key_findings@[i].description@),
        forall|i: int|
            0 <= i < lowered_words(r.summary@).len() ==> {
                let w = text::bare(#[trigger] lowered_words(r.summary@)[i]);
                w.len() < 4 || !text::occurs(text::unicode_lowercase(reply), w)
            },
    ensures
        reflection_error(r, reply) is Some,
{
}

/// The id of a reply is checked against that of the task, and the number of subtasks
/// against the least that is expected; what does not fit is told.
pub proof fn law_ids_and_counts_are_checked(h: Handoff, id: Seq<char>, least: nat)
    ensures
        id_error(h, id) is None <==> h.originating_message_id@ == id,
        decomposition_error(h, least) is None <==> h.subtasks@.len() >= least,
        decomposition_error(h, least) matches Some(e) ==> text::occurs(
            e,
            text::decimal(h.subtasks@.len()),
        ) && text::occurs(e, " subtasks, expected at least "@ + text::decimal(least)),
        id_error(h, id) matches Some(e) ==> text::occurs(e, text::quoted(id)) && text::occurs(
            e,
            text::quoted(h.originating_message_id@),
        ),
{
    broadcast use text::group_occurs;

}

/// Every check that fails is told, none hides another.
pub proof fn law_every_failed_check_is_told(
    message: Seq<char>,
    h: Handoff,
    r: BrowserResult,
    reply: Seq<char>,
    id: Seq<char>,
    least: nat,
)
    ensures
        ({
            let told = contract_error(message, h, r, reply, id, least);
            &&& dispatch_error(message, h) matches Some(e) ==> told is Some && text::occurs(told->0, e)
            &&& reflection_error(r, reply) matches Some(e) ==> told is Some && text::occurs(told->0, e)
            &&& id_error(h, id) matches Some(e) ==> told is Some && text::occurs(told->0, e)
            &&& decomposition_error(h, least) matches Some(e) ==> told is Some && text::occurs(
                told->0,
                e,
            )
        }),
{
    let a = with_error(Seq::empty(), dispatch_error(message, h));
    let b = with_error(a, reflection_error(r, reply));
    let c = with_error(b, id_error(h, id));
    let errors = with_error(c, decomposition_error(h, least));
    if dispatch_error(message, h) is Some {
        lemma_error_told(errors, 0);
    }
    if reflection_error(r, reply) is Some {
        lemma_error_told(errors, a.len() as int);
    }
    if id_error(h, id) is Some {
        lemma_error_told(errors, b.len() as int);
    }
    if decomposition_error(h, least) is Some {
        lemma_error_told(errors, c.len() as int);
    }
}

proof fn lemma_error_told(errors: Seq<Seq<char>>, i: int)
    requires
        0 <= i < errors.len(),
    ensures
        text::occurs(text::joined(errors, " | "@), errors[i]),
{
    text::law_joined_holds_each_part(errors, " | "@, i);
    text::lemma_occurs_here(
        text::joined(errors, " | "@),
        errors[i],
        text::part_start(errors, " | "@, i),
    );
}

/// A word of at least four characters that is no filler counts where it is taken up, in
/// whatever case, and a shorter one or a filler never does.
pub proof fn law_telling_words_have_four_characters(word: Seq<char>, t: Seq<char>)
    ensures
        text::bare(word).len() >= 4 && !stopword(text::bare(word)) && text::occurs(
            t,
            text::bare(word),
        ) ==> telling(word, t),
        text::bare(word).len() < 4 ==> !telling(word, t),
        stopword(text::bare(word)) ==> !telling(word, t),
        !text::occurs(t, text::bare(word)) ==> !telling(word, t),
        stopword("task"@),
        stopword("result"@),
        stopword("with"@),
{
}

} // verus!
