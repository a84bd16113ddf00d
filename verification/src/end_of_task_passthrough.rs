//! When the model's own closing words can be shown to the user as they are.

use vstd::prelude::*;
use crate::text;

verus! {

/// The longest closing words that pass, in characters.
pub const PASSTHROUGH_CAP: usize = 280;

/// Words that recount a tool call rather than answer the user.
pub open spec fn templated(lower: Seq<char>) -> bool {
    ||| "i clicked"@.is_prefix_of(lower)
    ||| "i typed"@.is_prefix_of(lower)
    ||| "i navigated"@.is_prefix_of(lower)
    ||| "i scrolled"@.is_prefix_of(lower)
    ||| "i performed"@.is_prefix_of(lower)
    ||| "i called"@.is_prefix_of(lower)
    ||| "i took"@.is_prefix_of(lower)
    ||| "step 1"@.is_prefix_of(lower)
    ||| "step 2"@.is_prefix_of(lower)
}

/// Whether only white space stands between the start of the line and position `i`.
pub open spec fn starts_line(s: Seq<char>, i: int) -> bool
    decreases i,
{
    i <= 0 || s[i - 1] == '\n' || (text::white_space(s[i - 1]) && starts_line(s, i - 1))
}

/// Whether some line begins, after white space, with a brace or a bracket.
pub open spec fn has_json_line(s: Seq<char>) -> bool {
    exists|i: int|
        0 <= i < s.len() && (s[i] == '{' || s[i] == '[') && #[trigger] starts_line(s, i)
}

/// Whether closing words, already trimmed, are fit to be shown.
pub open spec fn passes(t: Seq<char>) -> bool {
    let lower = text::ascii_lowercase(t);
    &&& 0 < t.len() <= PASSTHROUGH_CAP
    &&& !templated(lower)
    &&& !has_json_line(t)
    &&& !text::occurs(lower, "tool call:"@)
    &&& !text::occurs(lower, "[transcript]"@)
}

fn is_templated(lower: &str) -> (r: bool)
    ensures
        r == templated(lower@),
{
    text::starts_with(lower, "i clicked") || text::starts_with(lower, "i typed")
        || text::starts_with(lower, "i navigated") || text::starts_with(lower, "i scrolled")
        || text::starts_with(lower, "i performed") || text::starts_with(lower, "i called")
        || text::starts_with(lower, "i took") || text::starts_with(lower, "step 1")
        || text::starts_with(lower, "step 2")
}

fn contains_json_line(t: &str) -> (r: bool)
    ensures
        r == has_json_line(t@),
{
    let v = text::chars_of(t);
    let mut at_start = true;
    let mut i: usize = 0;
    while i < v.len()
        invariant
            v@ == t@,
            i <= v@.len(),
            at_start == starts_line(t@, i as int),
            forall|j: int|
                0 <= j < i && (t@[j] == '{' || t@[j] == '[') ==> !#[trigger] starts_line(t@, j),
        decreases v@.len() - i,
    {
        let c = v[i];
        if at_start && (c == '{' || c == '[') {
            return true;
        }
        if c == '\n' {
            at_start = true;
        } else if !text::is_white_space(c) {
            at_start = false;
        }
        i += 1;
    }
    false
}

/// The closing words without white space around them, where they can be shown as
/// they are; `None` where they have to be phrased anew.
pub fn passthrough_check(raw: &str) -> (r: Option<String>)
    ensures
        match r {
            Some(t) => t@ == text::trimmed(raw@) && passes(t@),
            None => !passes(text::trimmed(raw@)),
        },
{
    let trimmed = text::trim(raw);
    if trimmed.is_empty() || trimmed.unicode_len() > PASSTHROUGH_CAP {
        return None;
    }
    let lower = text::to_ascii_lowercase(trimmed);
    if is_templated(lower.as_str()) {
        return None;
    }
    if contains_json_line(trimmed) {
        return None;
    }
    if text::contains(lower.as_str(), "tool call:") || text::contains(
        lower.as_str(),
        "[transcript]",
    ) {
        return None;
    }
    Some(text::owned(trimmed))
}

// ---------------------------------------------------------------------------
// Laws
// ---------------------------------------------------------------------------

/// An answer that is passed on as it is is short, and neither it nor a line of it begins
/// like JSON.
pub proof fn law_passed_answers_are_short_and_plain(t: Seq<char>, i: int)
    requires
        passes(t),
        0 <= i < t.len(),
    ensures
        t.len() <= 280,
        t[0] != '{' && t[0] != '[',
        i > 0 && t[i - 1] == '\n' ==> t[i] != '{' && t[i] != '[',
{
    assert(starts_line(t, 0));
    if i > 0 && t[i - 1] == '\n' {
        assert(starts_line(t, i));
    }
}

/// White space before it does not hide JSON at the start of a line.
pub proof fn law_indented_json_is_not_passed_on(t: Seq<char>, i: int, j: int)
    requires
        0 <= i <= j < t.len(),
        i == 0 || t[i - 1] == '\n',
        forall|k: int| i <= k < j ==> text::white_space(#[trigger] t[k]),
        t[j] == '{' || t[j] == '[',
    ensures
        !passes(t),
{
    lemma_line_starts(t, i, j);
}

proof fn lemma_line_starts(t: Seq<char>, i: int, j: int)
    requires
        0 <= i <= j < t.len(),
        i == 0 || t[i - 1] == '\n',
        forall|k: int| i <= k < j ==> text::white_space(#[trigger] t[k]),
    ensures
        starts_line(t, j),
    decreases j - i,
{
    if i < j {
        lemma_line_starts(t, i, j - 1);
        assert(text::white_space(t[j - 1]));
    }
}

/// An account of single steps is not passed on, whatever its case: neither one that
/// begins with what was clicked, typed or the like, nor one that quotes the transcript.
pub proof fn law_accounts_of_steps_are_not_passed_on(t: Seq<char>)
    ensures
        "i clicked"@.is_prefix_of(text::ascii_lowercase(t)) ==> !passes(t),
        "i typed"@.is_prefix_of(text::ascii_lowercase(t)) ==> !passes(t),
        "i navigated"@.is_prefix_of(text::ascii_lowercase(t)) ==> !passes(t),
        "i scrolled"@.is_prefix_of(text::ascii_lowercase(t)) ==> !passes(t),
        "i performed"@.is_prefix_of(text::ascii_lowercase(t)) ==> !passes(t),
        "i called"@.is_prefix_of(text::ascii_lowercase(t)) ==> !passes(t),
        "i took"@.is_prefix_of(text::ascii_lowercase(t)) ==> !passes(t),
        "step 1"@.is_prefix_of(text::ascii_lowercase(t)) ==> !passes(t),
        "step 2"@.is_prefix_of(text::ascii_lowercase(t)) ==> !passes(t),
        text::occurs(text::ascii_lowercase(t), "tool call:"@) ==> !passes(t),
        text::occurs(text::ascii_lowercase(t), "[transcript]"@) ==> !passes(t),
        t.len() == 0 ==> !passes(t),
        t.len() > 280 ==> !passes(t),
{
}

/// Any other answer is passed on: one of at most 280 characters that holds no brace and
/// no bracket, that begins neither with "i " nor with "step " in any case, and that
/// speaks of no tool call.
pub proof fn law_plain_answers_are_passed_on(t: Seq<char>)
    requires
        0 < t.len() <= 280,
        forall|i: int| 0 <= i < t.len() ==> #[trigger] t[i] != '{' && t[i] != '[',
        !"i "@.is_prefix_of(text::ascii_lowercase(t)),
        !"step "@.is_prefix_of(text::ascii_lowercase(t)),
        !text::occurs(text::ascii_lowercase(t), "tool call:"@),
    ensures
        passes(t),
{
    reveal_strlit("i ");
    reveal_strlit("step ");
    reveal_strlit("i clicked");
    reveal_strlit("i typed");
    reveal_strlit("i navigated");
    reveal_strlit("i scrolled");
    reveal_strlit("i performed");
    reveal_strlit("i called");
    reveal_strlit("i took");
    reveal_strlit("step 1");
    reveal_strlit("step 2");
    reveal_strlit("[transcript]");
    let lower = text::ascii_lowercase(t);
    text::law_lower_case_goes_by_characters(t);
    lemma_shorter_start("i "@, "i clicked"@, lower);
    lemma_shorter_start("i "@, "i typed"@, lower);
    lemma_shorter_start("i "@, "i navigated"@, lower);
    lemma_shorter_start("i "@, "i scrolled"@, lower);
    lemma_shorter_start("i "@, "i performed"@, lower);
    lemma_shorter_start("i "@, "i called"@, lower);
    lemma_shorter_start("i "@, "i took"@, lower);
    lemma_shorter_start("step "@, "step 1"@, lower);
    lemma_shorter_start("step "@, "step 2"@, lower);
    if text::occurs(lower, "[transcript]"@) {
        let i = choose|i: int| text::occurs_at(lower, "[transcript]"@, i);
        assert(lower.subrange(i, i + 12)[0] == '[');
        assert(lower[i] == '[');
        text::law_lower_case_keeps_the_letter(t[i]);
        assert(lower[i] == text::ascii_lower(t[i]));
    }
}

proof fn lemma_shorter_start(a: Seq<char>, b: Seq<char>, s: Seq<char>)
    requires
        a.len() <= b.len(),
        b.take(a.len() as int) =~= a,
    ensures
        b.is_prefix_of(s) ==> a.is_prefix_of(s),
{
    if b.is_prefix_of(s) {
        assert(s.subrange(0, b.len() as int) =~= b);
        assert(s.subrange(0, a.len() as int) =~= a) by {
            assert forall|k: int| 0 <= k < a.len() implies #[trigger] s.subrange(
                0,
                a.len() as int,
            )[k] == a[k] by {
                assert(s.subrange(0, b.len() as int)[k] == b[k]);
                assert(b.take(a.len() as int)[k] == b[k]);
            }
        }
    }
}

} // verus!
