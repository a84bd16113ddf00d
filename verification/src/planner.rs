//! Pre-flight decomposition of a task into subtasks.
//!
//! The decomposition is deterministic: a task is cut at its conjunctions, and
//! each clause gets an id that is made of its own words and its position.

use vstd::prelude::*;
use crate::completeness::DeclareItem;
use crate::handoff::Handoff;
use crate::text;
use crate::todo::{AcceptanceCriterion, AcceptanceKind, Todo, TodoBudget, TodoId, TodoStatus};

verus! {

// ---------------------------------------------------------------------------
// Splitting
// ---------------------------------------------------------------------------

/// The clause boundaries. Where two of them stand at one place, the one that
/// comes first here is taken.
pub open spec fn markers() -> Seq<Seq<char>> {
    seq![
        ", then "@,
        ", and "@,
        " then "@,
        " and "@,
        "; "@,
        " & "@,
        " + "@,
        ", "@,
    ]
}

pub const MARKER_COUNT: usize = 8;

fn marker(k: usize) -> (r: &'static str)
    requires
        k < MARKER_COUNT,
    ensures
        r@ == markers()[k as int],
{
    if k == 0 {
        ", then "
    } else if k == 1 {
        ", and "
    } else if k == 2 {
        " then "
    } else if k == 3 {
        " and "
    } else if k == 4 {
        "; "
    } else if k == 5 {
        " & "
    } else if k == 6 {
        " + "
    } else {
        ", "
    }
}

/// Among the first `n` markers, the one that stands leftmost in `s`: its
/// position and its index.
pub open spec fn leftmost(s: Seq<char>, n: nat) -> Option<(int, int)>
    decreases n,
{
    if n == 0 {
        None
    } else {
        let before = leftmost(s, (n - 1) as nat);
        match text::first_occurrence(s, markers()[n - 1]) {
            None => before,
            Some(pos) => match before {
                Some((q, k)) => if pos < q {
                    Some((pos, n - 1))
                } else {
                    before
                },
                None => Some((pos, n - 1)),
            },
        }
    }
}

/// Where a task is cut: position and length of the leftmost marker.
pub open spec fn cut(s: Seq<char>) -> Option<(int, int)> {
    match leftmost(s, MARKER_COUNT as nat) {
        None => None,
        Some((pos, k)) => Some((pos, markers()[k].len() as int)),
    }
}

/// No marker is empty.
pub proof fn lemma_markers()
    ensures
        markers().len() == MARKER_COUNT,
        forall|k: int| 0 <= k < MARKER_COUNT ==> (#[trigger] markers()[k]).len() > 0,
{
    reveal_strlit(", then ");
    reveal_strlit(", and ");
    reveal_strlit(" then ");
    reveal_strlit(" and ");
    reveal_strlit("; ");
    reveal_strlit(" & ");
    reveal_strlit(" + ");
    reveal_strlit(", ");
    assert forall|k: int| 0 <= k < MARKER_COUNT implies (#[trigger] markers()[k]).len() > 0 by {
        assert(k == 0 || k == 1 || k == 2 || k == 3 || k == 4 || k == 5 || k == 6 || k == 7);
    }
}

/// The leftmost marker stands where it is said to, and none of the others stands
/// before it; at one place the earlier in the list wins.
pub proof fn lemma_leftmost(s: Seq<char>, n: nat)
    requires
        n <= MARKER_COUNT,
    ensures
        match leftmost(s, n) {
            Some((pos, k)) => {
                &&& 0 <= k < n
                &&& text::occurs_at(s, markers()[k], pos)
                &&& forall|j: int, q: int|
                    0 <= j < n && #[trigger] text::occurs_at(s, markers()[j], q) ==> pos < q || (pos
                        == q && k <= j)
            },
            None => forall|j: int, q: int|
                0 <= j < n ==> !#[trigger] text::occurs_at(s, markers()[j], q),
        },
    decreases n,
{
    if n > 0 {
        lemma_leftmost(s, (n - 1) as nat);
        text::lemma_find_from(s, markers()[n - 1], 0);
    }
}

/// A cut lies inside the text and is not empty.
pub proof fn lemma_cut(s: Seq<char>)
    ensures
        match cut(s) {
            Some((pos, len)) => 0 <= pos && 0 < len && pos + len <= s.len(),
            None => true,
        },
{
    lemma_leftmost(s, MARKER_COUNT as nat);
    lemma_markers();
}

/// The pieces between the markers, cut from the left.
pub open spec fn pieces(s: Seq<char>) -> Seq<Seq<char>>
    decreases s.len(),
{
    match cut(s) {
        None => seq![s],
        Some((pos, len)) => {
            proof {
                lemma_cut(s);
            }
            seq![s.subrange(0, pos)] + pieces(s.subrange(pos + len, s.len() as int))
        },
    }
}

/// The contents of a list of string slices.
pub open spec fn slice_views(v: Seq<&str>) -> Seq<Seq<char>> {
    v.map_values(|s: &str| s@)
}

fn find_cut(task: &str) -> (r: Option<(usize, usize)>)
    ensures
        match r {
            Some((pos, len)) => cut(task@) == Some((pos as int, len as int)),
            None => cut(task@) is None,
        },
{
    let mut best: Option<(usize, usize)> = None;
    let mut k: usize = 0;
    while k < MARKER_COUNT
        invariant
            k <= MARKER_COUNT,
            match best {
                Some((pos, j)) => j < k && leftmost(task@, k as nat) == Some(
                    (pos as int, j as int),
                ),
                None => leftmost(task@, k as nat) is None,
            },
        decreases MARKER_COUNT - k,
    {
        if let Some(pos) = text::find(task, marker(k)) {
            let better = match best {
                Some((q, _)) => pos < q,
                None => true,
            };
            if better {
                best = Some((pos, k));
            }
        }
        k += 1;
    }
    match best {
        Some((pos, j)) => Some((pos, marker(j).unicode_len())),
        None => None,
    }
}

/// Cuts a task at its conjunctions.
pub fn split_compound(task: &str) -> (r: Vec<&str>)
    ensures
        slice_views(r@) == pieces(task@),
{
    let mut out: Vec<&str> = Vec::new();
    let mut rest: &str = task;
    loop
        invariant_except_break
            slice_views(out@) + pieces(rest@) == pieces(task@),
        ensures
            slice_views(out@) == pieces(task@),
        decreases rest@.len(),
    {
        let ghost before = rest@;
        let ghost done = slice_views(out@);
        match find_cut(rest) {
            None => {
                out.push(rest);
                assert(slice_views(out@) == done.push(before));
                assert(done + seq![before] == done.push(before));
                break;
            },
            Some((pos, len)) => {
                proof {
                    lemma_cut(rest@);
                }
                let n: usize = rest.unicode_len();
                let head: &str = rest.substring_char(0, pos);
                let tail: &str = rest.substring_char(pos + len, n);
                out.push(head);
                assert(slice_views(out@) == done.push(head@));
                assert(done.push(head@) + pieces(tail@) == done + (seq![head@] + pieces(tail@)));
                rest = tail;
            },
        }
    }
    out
}

// ---------------------------------------------------------------------------
// Slugs
// ---------------------------------------------------------------------------

/// The longest slug before its number is added.
pub const SLUG_CAP: usize = 32;

/// The letters and digits of `s` in lower case, with one dash for each run of
/// other characters between them, and perhaps one at the end.
pub open spec fn dashed(s: Seq<char>) -> Seq<char>
    decreases s.len(),
{
    if s.len() == 0 {
        Seq::empty()
    } else {
        let before = dashed(s.drop_last());
        let c = s.last();
        if text::ascii_alphanumeric(c) {
            before.push(text::ascii_lower(c))
        } else if before.len() > 0 && before.last() != '-' {
            before.push('-')
        } else {
            before
        }
    }
}

/// `s` without the dashes at its end.
pub open spec fn undashed_end(s: Seq<char>) -> Seq<char>
    decreases s.len(),
{
    if s.len() > 0 && s.last() == '-' {
        undashed_end(s.drop_last())
    } else {
        s
    }
}

/// The words of a slug: at most `SLUG_CAP` characters, no dash at either end.
pub open spec fn slug_words(description: Seq<char>) -> Seq<char> {
    let full = undashed_end(dashed(description));
    if full.len() > SLUG_CAP {
        undashed_end(full.take(SLUG_CAP as int))
    } else {
        full
    }
}

/// Whether a description has a letter or digit to make a slug from.
pub open spec fn sluggable(description: Seq<char>) -> bool {
    exists|i: int| 0 <= i < description.len() && text::ascii_alphanumeric(#[trigger] description[i])
}

/// The id of the clause at `index`: its words and its position counted from one,
/// or `step` and the position where it has no words.
pub open spec fn slug(description: Seq<char>, index: nat) -> Seq<char> {
    if sluggable(description) {
        slug_words(description) + "-"@ + text::decimal(index + 1)
    } else {
        "step-"@ + text::decimal(index + 1)
    }
}

fn strip_dashes(v: &mut Vec<char>)
    ensures
        final(v)@ == undashed_end(old(v)@),
{
    let ghost start = v@;
    while v.len() > 0 && v[v.len() - 1] == '-'
        invariant
            undashed_end(v@) == undashed_end(start),
        decreases v@.len(),
    {
        v.pop();
        assert(undashed_end(v@) == undashed_end(start));
    }
}

/// Makes the id of the clause at `index`.
pub fn slugify(description: &str, index: usize) -> (r: String)
    requires
        index < usize::MAX,
    ensures
        r@ == slug(description@, index as nat),
{
    let chars = text::chars_of(description);
    let mut out: Vec<char> = Vec::new();
    let mut had_alnum = false;
    let mut i: usize = 0;
    while i < chars.len()
        invariant
            chars@ == description@,
            i <= chars@.len(),
            out@ == dashed(chars@.take(i as int)),
            had_alnum == exists|j: int|
                0 <= j < i && text::ascii_alphanumeric(#[trigger] description@[j]),
        decreases chars@.len() - i,
    {
        let c = chars[i];
        assert(chars@.take(i + 1).drop_last() == chars@.take(i as int));
        assert(chars@.take(i + 1).last() == c);
        if text::is_ascii_alphanumeric(c) {
            out.push(text::to_ascii_lower(c));
            had_alnum = true;
            assert(text::ascii_alphanumeric(description@[i as int]));
        } else if out.len() > 0 && out[out.len() - 1] != '-' {
            out.push('-');
        }
        i += 1;
    }
    assert(chars@.take(chars@.len() as int) == chars@);
    strip_dashes(&mut out);
    if out.len() > SLUG_CAP {
        let ghost full = out@;
        out.truncate(SLUG_CAP);
        assert(out@ == full.take(SLUG_CAP as int));
        strip_dashes(&mut out);
    }
    let number = text::decimal_of((index + 1) as u64);
    if !had_alnum {
        let mut id = text::owned("step-");
        id.append(number.as_str());
        return id;
    }
    let mut id = text::from_chars(out.as_slice());
    id.append("-");
    id.append(number.as_str());
    id
}

// ---------------------------------------------------------------------------
// Plans
// ---------------------------------------------------------------------------

/// The outcome of a decomposition.
#[derive(Debug)]
pub struct Plan {
    pub subtasks: Vec<DeclareItem>,
    /// Why the planner produced this list, for human readers.
    pub rationale: String,
    /// Whether the decomposition was left to the model.
    pub escalated: bool,
}

/// The clauses of a task: the pieces between its markers, trimmed, without the
/// empty ones.
pub open spec fn clauses(task: Seq<char>) -> Seq<Seq<char>> {
    pieces(text::trimmed(task)).map_values(|p: Seq<char>| text::trimmed(p)).filter(
        |p: Seq<char>| p.len() > 0,
    )
}

/// The descriptions of the subtasks of a task.
pub open spec fn planned(task: Seq<char>) -> Seq<Seq<char>> {
    let t = text::trimmed(task);
    if t.len() == 0 {
        Seq::empty()
    } else if clauses(task).len() <= 1 {
        seq![t]
    } else {
        clauses(task)
    }
}

/// Why a task was planned as it was.
pub open spec fn rationale_text(task: Seq<char>) -> Seq<char> {
    let n = clauses(task).len();
    if text::trimmed(task).len() == 0 {
        "no clauses detected (empty input)."@
    } else if n <= 1 {
        "single clause; no decomposition needed."@
    } else {
        "split on "@ + text::decimal((n - 1) as nat) + " clause-boundary marker(s) into "@
            + text::decimal(n) + " subtask(s)."@
    }
}

/// Whether `items` are the subtasks with the given descriptions, each under the
/// id that its words and its position make.
pub open spec fn items_for(items: Seq<DeclareItem>, descriptions: Seq<Seq<char>>) -> bool {
    &&& items.len() == descriptions.len()
    &&& forall|i: int|
        0 <= i < items.len() ==> {
            &&& (#[trigger] items[i]).description@ == descriptions[i]
            &&& items[i].id@ == slug(descriptions[i], i as nat)
        }
}

/// The non-empty trimmed pieces of a list.
fn keep_clauses<'a>(raw: &Vec<&'a str>) -> (r: Vec<&'a str>)
    ensures
        slice_views(r@) == slice_views(raw@).map_values(|p: Seq<char>| text::trimmed(p)).filter(
            |p: Seq<char>| p.len() > 0,
        ),
        r@.len() <= raw@.len(),
{
    let ghost all = slice_views(raw@).map_values(|p: Seq<char>| text::trimmed(p));
    let ghost keep = |p: Seq<char>| p.len() > 0;
    let mut out: Vec<&'a str> = Vec::new();
    let mut i: usize = 0;
    proof {
        reveal(Seq::filter);
    }
    while i < raw.len()
        invariant
            i <= raw@.len(),
            all == slice_views(raw@).map_values(|p: Seq<char>| text::trimmed(p)),
            keep == (|p: Seq<char>| p.len() > 0),
            slice_views(out@) == all.take(i as int).filter(keep),
            out@.len() <= i,
        decreases raw@.len() - i,
    {
        let t: &'a str = text::trim(raw[i]);
        let ghost before = slice_views(out@);
        proof {
            reveal(Seq::filter);
            assert(all.take(i + 1).drop_last() == all.take(i as int));
            assert(all.take(i + 1).last() == t@);
        }
        if !t.is_empty() {
            out.push(t);
            assert(slice_views(out@) == before.push(t@));
        }
        i += 1;
    }
    assert(all.take(all.len() as int) == all);
    out
}

/// Decomposes a task into subtasks. An empty task has none, a single clause is
/// its own subtask, and a compound task gets one subtask for each clause.
pub fn plan(task: &str) -> (r: Plan)
    ensures
        items_for(r.subtasks@, planned(task@)),
        r.rationale@ == rationale_text(task@),
        !r.escalated,
{
    let trimmed = text::trim(task);
    if trimmed.is_empty() {
        return Plan {
            subtasks: Vec::new(),
            rationale: text::owned("no clauses detected (empty input)."),
            escalated: false,
        };
    }
    let raw = split_compound(trimmed);
    let kept = keep_clauses(&raw);
    let n: usize = kept.len();
    assert(slice_views(kept@) == clauses(task@));
    let mut subtasks: Vec<DeclareItem> = Vec::new();
    if n <= 1 {
        subtasks.push(
            DeclareItem { id: slugify(trimmed, 0), description: text::owned(trimmed) },
        );
        return Plan {
            subtasks,
            rationale: text::owned("single clause; no decomposition needed."),
            escalated: false,
        };
    }
    let mut i: usize = 0;
    while i < n
        invariant
            i <= n == kept@.len(),
            slice_views(kept@) == clauses(task@),
            subtasks@.len() == i,
            forall|j: int|
                0 <= j < i ==> {
                    &&& (#[trigger] subtasks@[j]).description@ == clauses(task@)[j]
                    &&& subtasks@[j].id@ == slug(clauses(task@)[j], j as nat)
                },
        decreases n - i,
    {
        assert(clauses(task@)[i as int] == kept@[i as int]@);
        subtasks.push(
            DeclareItem { id: slugify(kept[i], i), description: text::owned(kept[i]) },
        );
        i += 1;
    }
    let mut rationale = text::owned("split on ");
    rationale.append(text::decimal_of((n - 1) as u64).as_str());
    rationale.append(" clause-boundary marker(s) into ");
    rationale.append(text::decimal_of(n as u64).as_str());
    rationale.append(" subtask(s).");
    Plan { subtasks, rationale, escalated: false }
}

// ---------------------------------------------------------------------------
// Todos
// ---------------------------------------------------------------------------

/// What counts as done for an intent, by how its lower-case form begins.
pub open spec fn acceptance_kind(lower: Seq<char>) -> AcceptanceKind {
    if "navigate"@.is_prefix_of(lower) || "go to"@.is_prefix_of(lower) || "open"@.is_prefix_of(
        lower,
    ) {
        AcceptanceKind::UrlAt
    } else if "type"@.is_prefix_of(lower) || "send"@.is_prefix_of(lower) || "text"@.is_prefix_of(
        lower,
    ) {
        AcceptanceKind::ElementPresent
    } else {
        AcceptanceKind::AnySnapshot
    }
}

/// Reads off the lower-case form of an intent what counts as done.
pub fn acceptance_kind_of(lower: &str) -> (r: AcceptanceKind)
    ensures
        r == acceptance_kind(lower@),
{
    if text::starts_with(lower, "navigate") || text::starts_with(lower, "go to")
        || text::starts_with(lower, "open") {
        AcceptanceKind::UrlAt
    } else if text::starts_with(lower, "type") || text::starts_with(lower, "send")
        || text::starts_with(lower, "text") {
        AcceptanceKind::ElementPresent
    } else {
        AcceptanceKind::AnySnapshot
    }
}

/// The criterion of an intent.
pub fn infer_acceptance(intent: &str) -> (r: AcceptanceCriterion)
    ensures
        r.kind == acceptance_kind(text::unicode_lowercase(text::trimmed(intent@))),
        r.detail@ == intent@,
{
    let lower = text::trim(intent).to_lowercase();
    AcceptanceCriterion::new(acceptance_kind_of(lower.as_str()), intent)
}

/// The ids and descriptions that a handoff is worked through by: its subtasks, or
/// the plan of its task where it has none.
pub open spec fn work_items(h: Handoff) -> Seq<(Seq<char>, Seq<char>)> {
    if h.subtasks@.len() > 0 {
        Seq::new(
            h.subtasks@.len(),
            |i: int| (h.subtasks@[i].id@, h.subtasks@[i].description@),
        )
    } else {
        let d = planned(h.task_description@);
        Seq::new(d.len(), |i: int| (slug(d[i], i as nat), d[i]))
    }
}

/// A todo as it starts out: pending, with no attempt and no evidence.
pub open spec fn fresh_todo(t: Todo, item: (Seq<char>, Seq<char>)) -> bool {
    &&& t.id.0@ == item.0
    &&& t.intent@ == item.1
    &&& t.acceptance is Some
    &&& t.acceptance->0.kind == acceptance_kind(text::unicode_lowercase(text::trimmed(item.1)))
    &&& t.acceptance->0.detail@ == item.1
    &&& t.status is Pending
    &&& t.evidence is None
    &&& t.attempts == 0
    &&& t.budget == (TodoBudget { max_steps: 10, max_seconds: 75 })
    &&& t.last_evidence_iteration is None
}

/// Whether the todos are those of the work items: one for each, in order, each
/// waiting for the one before it.
pub open spec fn todos_for(todos: Seq<Todo>, items: Seq<(Seq<char>, Seq<char>)>) -> bool {
    &&& todos.len() == items.len()
    &&& forall|i: int|
        0 <= i < todos.len() ==> {
            &&& fresh_todo(#[trigger] todos[i], items[i])
            &&& todos[i].depends_on@ == if i == 0 {
                Seq::<TodoId>::empty()
            } else {
                seq![todos[i - 1].id]
            }
        }
}

/// Decomposes a handoff into a chain of todos.
pub fn decompose_to_todos(handoff: &Handoff) -> (r: Vec<Todo>)
    ensures
        todos_for(r@, work_items(*handoff)),
{
    let ghost items = work_items(*handoff);
    let mut ids: Vec<String> = Vec::new();
    let mut descriptions: Vec<String> = Vec::new();
    if handoff.subtasks.len() > 0 {
        let mut i: usize = 0;
        while i < handoff.subtasks.len()
            invariant
                handoff.subtasks@.len() > 0,
                items == work_items(*handoff),
                i <= handoff.subtasks@.len(),
                ids@.len() == i,
                descriptions@.len() == i,
                forall|j: int|
                    0 <= j < i ==> (#[trigger] ids@[j])@ == items[j].0 && descriptions@[j]@
                        == items[j].1,
            decreases handoff.subtasks@.len() - i,
        {
            ids.push(handoff.subtasks[i].id.clone());
            descriptions.push(handoff.subtasks[i].description.clone());
            i += 1;
        }
    } else {
        let p = plan(handoff.task_description.as_str());
        let mut i: usize = 0;
        while i < p.subtasks.len()
            invariant
                handoff.subtasks@.len() == 0,
                items == work_items(*handoff),
                items_for(p.subtasks@, planned(handoff.task_description@)),
                i <= p.subtasks@.len(),
                ids@.len() == i,
                descriptions@.len() == i,
                forall|j: int|
                    0 <= j < i ==> (#[trigger] ids@[j])@ == items[j].0 && descriptions@[j]@
                        == items[j].1,
            decreases p.subtasks@.len() - i,
        {
            ids.push(p.subtasks[i].id.clone());
            descriptions.push(p.subtasks[i].description.clone());
            i += 1;
        }
    }
    assert(ids@.len() == items.len());
    let mut todos: Vec<Todo> = Vec::new();
    let mut k: usize = 0;
    while k < ids.len()
        invariant
            k <= ids@.len() == descriptions@.len() == items.len(),
            forall|j: int|
                0 <= j < ids@.len() ==> (#[trigger] ids@[j])@ == items[j].0 && descriptions@[j]@
                    == items[j].1,
            todos@.len() == k,
            forall|i: int|
                0 <= i < k ==> {
                    &&& fresh_todo(#[trigger] todos@[i], items[i])
                    &&& todos@[i].depends_on@ == if i == 0 {
                        Seq::<TodoId>::empty()
                    } else {
                        seq![todos@[i - 1].id]
                    }
                },
        decreases ids@.len() - k,
    {
        let mut depends_on: Vec<TodoId> = Vec::new();
        if k > 0 {
            depends_on.push(todos[k - 1].id.clone());
        }
        assert(ids@[k as int]@ == items[k as int].0);
        todos.push(
            Todo {
                id: TodoId(ids[k].clone()),
                intent: descriptions[k].clone(),
                acceptance: Some(infer_acceptance(descriptions[k].as_str())),
                depends_on,
                status: TodoStatus::Pending,
                evidence: None,
                attempts: 0,
                budget: TodoBudget::default(),
                last_evidence_iteration: None,
            },
        );
        k += 1;
    }
    todos
}

// ---------------------------------------------------------------------------
// Laws of planning
// ---------------------------------------------------------------------------

/// The markers at which a task was cut, in order.
pub open spec fn separators(s: Seq<char>) -> Seq<Seq<char>>
    decreases s.len(),
{
    match cut(s) {
        None => Seq::empty(),
        Some((pos, len)) => {
            proof {
                lemma_cut(s);
            }
            seq![s.subrange(pos, pos + len)] + separators(s.subrange(pos + len, s.len() as int))
        },
    }
}

/// Pieces and separators in turn, beginning with a piece.
pub open spec fn woven(parts: Seq<Seq<char>>, seps: Seq<Seq<char>>) -> Seq<char>
    decreases parts.len(),
{
    if parts.len() == 0 {
        Seq::empty()
    } else if parts.len() == 1 || seps.len() == 0 {
        parts[0]
    } else {
        parts[0] + seps[0] + woven(parts.drop_first(), seps.drop_first())
    }
}

/// Splitting loses nothing: the pieces and the markers between them, in turn,
/// are the task again.
pub proof fn law_pieces_rebuild_the_task(s: Seq<char>)
    ensures
        pieces(s).len() == separators(s).len() + 1,
        woven(pieces(s), separators(s)) == s,
    decreases s.len(),
{
    match cut(s) {
        None => {},
        Some((pos, len)) => {
            lemma_cut(s);
            let tail = s.subrange(pos + len, s.len() as int);
            law_pieces_rebuild_the_task(tail);
            assert(pieces(s).drop_first() == pieces(tail));
            assert(separators(s).drop_first() == separators(tail));
            assert(s.subrange(0, pos) + s.subrange(pos, pos + len) + tail == s);
        },
    }
}

/// Splitting is thorough: no piece holds a marker.
pub proof fn law_no_piece_holds_a_marker(s: Seq<char>, i: int, k: int)
    requires
        0 <= i < pieces(s).len(),
        0 <= k < MARKER_COUNT,
    ensures
        !text::occurs(pieces(s)[i], markers()[k]),
    decreases s.len(),
{
    lemma_leftmost(s, MARKER_COUNT as nat);
    let m = markers()[k];
    match cut(s) {
        None => {},
        Some((pos, len)) => {
            lemma_cut(s);
            let tail = s.subrange(pos + len, s.len() as int);
            if i == 0 {
                let head = s.subrange(0, pos);
                if text::occurs(head, m) {
                    let q = choose|q: int| text::occurs_at(head, m, q);
                    lemma_markers();
                    assert(m.len() > 0);
                    assert(head.subrange(q, q + m.len()) == s.subrange(q, q + m.len()));
                    assert(text::occurs_at(s, m, q));
                }
            } else {
                assert(pieces(s)[i] == pieces(tail)[i - 1]);
                law_no_piece_holds_a_marker(tail, i - 1, k);
            }
        },
    }
}

/// A character that may stand in a slug.
pub open spec fn slug_char(c: char) -> bool {
    text::ascii_lower_letter(c) || text::ascii_digit(c) || c == '-'
}

/// No two dashes stand next to each other.
pub open spec fn single_dashes(s: Seq<char>) -> bool {
    forall|i: int| 0 < i < s.len() ==> !((#[trigger] s[i]) == '-' && s[i - 1] == '-')
}

proof fn lemma_dashed(s: Seq<char>)
    ensures
        forall|i: int| 0 <= i < dashed(s).len() ==> slug_char(#[trigger] dashed(s)[i]),
        dashed(s).len() > 0 ==> dashed(s)[0] != '-',
        dashed(s).len() > 0 <==> sluggable(s),
        single_dashes(dashed(s)),
    decreases s.len(),
{
    if s.len() > 0 {
        let t = s.drop_last();
        lemma_dashed(t);
        if sluggable(t) {
            let i = choose|i: int| 0 <= i < t.len() && text::ascii_alphanumeric(#[trigger] t[i]);
            assert(s[i] == t[i]);
        }
        if text::ascii_alphanumeric(s.last()) {
            assert(s[s.len() - 1] == s.last());
        }
        if sluggable(s) && !text::ascii_alphanumeric(s.last()) {
            let i = choose|i: int| 0 <= i < s.len() && text::ascii_alphanumeric(#[trigger] s[i]);
            assert(t[i] == s[i]);
        }
    }
}

proof fn lemma_undashed(s: Seq<char>)
    ensures
        undashed_end(s).len() <= s.len(),
        undashed_end(s) == s.take(undashed_end(s).len() as int),
        undashed_end(s).len() > 0 ==> undashed_end(s).last() != '-',
        s.len() > 0 && s[0] != '-' ==> undashed_end(s).len() > 0,
    decreases s.len(),
{
    if s.len() > 0 && s.last() == '-' {
        lemma_undashed(s.drop_last());
        assert(s.drop_last().take(undashed_end(s).len() as int) == s.take(
            undashed_end(s).len() as int,
        ));
    } else {
        assert(s.take(s.len() as int) == s);
    }
}

/// The words of a slug are lower-case letters, digits and single dashes between
/// them, at most `SLUG_CAP` of them, and there are some wherever there is a
/// letter or digit to take.
pub proof fn law_slug_words(d: Seq<char>)
    ensures
        slug_words(d).len() <= SLUG_CAP,
        forall|i: int| 0 <= i < slug_words(d).len() ==> slug_char(#[trigger] slug_words(d)[i]),
        sluggable(d) ==> slug_words(d).len() > 0 && slug_words(d)[0] != '-' && slug_words(d).last()
            != '-',
        single_dashes(slug_words(d)),
{
    lemma_dashed(d);
    lemma_undashed(dashed(d));
    let full = undashed_end(dashed(d));
    lemma_undashed(full.take(SLUG_CAP as int));
}

/// A decimal numeral is made of digits.
pub proof fn lemma_decimal_digits(n: nat)
    ensures
        text::decimal(n).len() > 0,
        forall|i: int|
            0 <= i < text::decimal(n).len() ==> text::ascii_digit(#[trigger] text::decimal(n)[i]),
    decreases n,
{
    if n >= 10 {
        lemma_decimal_digits(n / 10);
    }
}

/// Two numbers with one decimal numeral are equal.
pub proof fn lemma_decimal_injective(a: nat, b: nat)
    requires
        text::decimal(a) == text::decimal(b),
    ensures
        a == b,
    decreases a,
{
    let da = text::decimal(a);
    let db = text::decimal(b);
    lemma_decimal_digits(a / 10);
    lemma_decimal_digits(b / 10);
    assert(da.last() == text::digit_char(a % 10));
    assert(db.last() == text::digit_char(b % 10));
    assert(a % 10 == b % 10);
    if a >= 10 && b >= 10 {
        assert(da.drop_last() == text::decimal(a / 10));
        assert(db.drop_last() == text::decimal(b / 10));
        lemma_decimal_injective(a / 10, b / 10);
    }
}

/// A slug is some words, a dash and a number.
proof fn lemma_slug_shape(d: Seq<char>, i: nat) -> (words: Seq<char>)
    ensures
        slug(d, i) == words.push('-') + text::decimal(i + 1),
        words.len() > 0,
        words[0] != '-',
        words.last() != '-',
        single_dashes(words),
        forall|k: int| 0 <= k < words.len() ==> slug_char(#[trigger] words[k]),
        words.len() <= SLUG_CAP,
{
    reveal_strlit("-");
    reveal_strlit("step-");
    if sluggable(d) {
        law_slug_words(d);
        assert("-"@ == seq!['-']);
        assert(slug_words(d) + "-"@ == slug_words(d).push('-'));
        slug_words(d)
    } else {
        let w = seq!['s', 't', 'e', 'p'];
        assert("step-"@ == w.push('-'));
        w
    }
}

/// An id is a slug: lower-case letters, digits and single dashes, with no dash at
/// either end.
pub proof fn law_ids_are_slugs(d: Seq<char>, i: nat)
    ensures
        slug(d, i).len() > 2,
        forall|k: int| 0 <= k < slug(d, i).len() ==> slug_char(#[trigger] slug(d, i)[k]),
        slug(d, i)[0] != '-',
        slug(d, i).last() != '-',
        single_dashes(slug(d, i)),
        slug(d, i).len() <= SLUG_CAP + 1 + text::decimal(i + 1).len(),
{
    let words = lemma_slug_shape(d, i);
    let number = text::decimal(i + 1);
    lemma_decimal_digits(i + 1);
    let id = slug(d, i);
    assert forall|k: int| 0 <= k < id.len() implies slug_char(#[trigger] id[k]) by {
        if k > words.len() {
            assert(id[k] == number[k - words.len() - 1]);
        }
    }
    assert(id.last() == number[number.len() - 1]);
    assert forall|k: int| 0 < k < id.len() implies !((#[trigger] id[k]) == '-' && id[k - 1]
        == '-') by {
        if k < words.len() {
            assert(id[k] == words[k] && id[k - 1] == words[k - 1]);
        } else if k == words.len() {
            assert(id[k - 1] == words.last());
        } else {
            assert(id[k] == number[k - words.len() - 1]);
        }
    }
}

/// Ids at different positions differ, whatever the descriptions.
pub proof fn law_ids_are_distinct(a: Seq<char>, i: nat, b: Seq<char>, j: nat)
    requires
        i != j,
    ensures
        slug(a, i) != slug(b, j),
{
    let wa = lemma_slug_shape(a, i);
    let wb = lemma_slug_shape(b, j);
    let na = text::decimal(i + 1);
    let nb = text::decimal(j + 1);
    lemma_decimal_digits(i + 1);
    lemma_decimal_digits(j + 1);
    if slug(a, i) == slug(b, j) {
        let s = slug(a, i);
        let sa = wa.push('-') + na;
        let sb = wb.push('-') + nb;
        assert(s == sa && s == sb);
        assert(sa.len() == wa.len() + 1 + na.len());
        assert(sb.len() == wb.len() + 1 + nb.len());
        assert(sa[wa.len() as int] == '-');
        assert(sb[wb.len() as int] == '-');
        if wa.len() < wb.len() {
            assert(sa[wb.len() as int] == na[wb.len() - wa.len() - 1]);
        } else if wb.len() < wa.len() {
            assert(sb[wa.len() as int] == nb[wa.len() - wb.len() - 1]);
        } else {
            assert(na == sa.subrange(wa.len() as int + 1, sa.len() as int));
            assert(nb == sb.subrange(wb.len() as int + 1, sb.len() as int));
            lemma_decimal_injective(i + 1, j + 1);
        }
    }
}

/// The subtasks of a plan have distinct ids.
pub proof fn law_plan_ids_are_unique(items: Seq<DeclareItem>, task: Seq<char>, i: int, j: int)
    requires
        items_for(items, planned(task)),
        0 <= i < j < items.len(),
    ensures
        items[i].id@ != items[j].id@,
{
    law_ids_are_distinct(planned(task)[i], i as nat, planned(task)[j], j as nat);
}

/// Only a blank task has no subtasks.
pub proof fn law_only_blank_tasks_have_no_plan(task: Seq<char>)
    ensures
        planned(task).len() == 0 <==> text::trimmed(task).len() == 0,
{
}

/// How many of the pieces are not blank.
pub open spec fn speaking(parts: Seq<Seq<char>>) -> nat
    decreases parts.len(),
{
    if parts.len() == 0 {
        0
    } else {
        speaking(parts.drop_last()) + if text::trimmed(parts.last()).len() > 0 {
            1nat
        } else {
            0nat
        }
    }
}

proof fn lemma_kept(parts: Seq<Seq<char>>)
    ensures
        ({
            let kept = parts.map_values(|p: Seq<char>| text::trimmed(p)).filter(
                |p: Seq<char>| p.len() > 0,
            );
            &&& kept.len() == speaking(parts)
            &&& forall|i: int|
                0 <= i < parts.len() && text::trimmed(#[trigger] parts[i]).len() > 0 ==> {
                    &&& speaking(parts.take(i)) < kept.len()
                    &&& kept[speaking(parts.take(i)) as int] == text::trimmed(parts[i])
                }
        }),
    decreases parts.len(),
{
    reveal(Seq::filter);
    let keep = |p: Seq<char>| p.len() > 0;
    let all = parts.map_values(|p: Seq<char>| text::trimmed(p));
    let kept = all.filter(keep);
    if parts.len() > 0 {
        let head = parts.drop_last();
        lemma_kept(head);
        let n = head.len() as int;
        assert(all.drop_last() == head.map_values(|p: Seq<char>| text::trimmed(p)));
        assert(all.last() == text::trimmed(parts.last()));
        assert forall|i: int| 0 <= i < parts.len() && text::trimmed(#[trigger] parts[i]).len()
            > 0 implies speaking(parts.take(i)) < kept.len() && kept[speaking(parts.take(i)) as int]
            == text::trimmed(parts[i]) by {
            if i < n {
                assert(head[i] == parts[i]);
                assert(head.take(i) == parts.take(i));
            } else {
                assert(parts.take(i) == head);
            }
        }
    }
}

/// Nothing that is asked for is dropped: every piece of a compound task that is
/// not blank is a subtask, word for word, at the place that its order gives it, and
/// there are no others. A task of one piece is its own subtask.
pub proof fn law_every_clause_is_a_subtask(task: Seq<char>)
    ensures
        speaking(pieces(text::trimmed(task))) >= 2 ==> {
            &&& planned(task).len() == speaking(pieces(text::trimmed(task)))
            &&& forall|i: int|
                0 <= i < pieces(text::trimmed(task)).len() && text::trimmed(
                    #[trigger] pieces(text::trimmed(task))[i],
                ).len() > 0 ==> {
                    &&& speaking(pieces(text::trimmed(task)).take(i)) < planned(task).len()
                    &&& planned(task)[speaking(pieces(text::trimmed(task)).take(i)) as int]
                        == text::trimmed(pieces(text::trimmed(task))[i])
                }
        },
        speaking(pieces(text::trimmed(task))) < 2 && text::trimmed(task).len() > 0 ==> planned(task)
            == seq![text::trimmed(task)],
{
    let t = text::trimmed(task);
    lemma_kept(pieces(t));
    if t.len() == 0 {
        lemma_cut(t);
        assert(pieces(t) == seq![t]);
        assert(text::trimmed(t).len() == 0);
        assert(pieces(t).drop_last().len() == 0);
        assert(speaking(pieces(t).drop_last()) == 0);
    }
}

/// The same, for a task and the plan that is made of it.
pub proof fn law_plans_hold_every_clause(items: Seq<DeclareItem>, task: Seq<char>, i: int)
    requires
        items_for(items, planned(task)),
        speaking(pieces(text::trimmed(task))) >= 2,
        0 <= i < pieces(text::trimmed(task)).len(),
        text::trimmed(pieces(text::trimmed(task))[i]).len() > 0,
    ensures
        items.len() == speaking(pieces(text::trimmed(task))),
        exists|k: int|
            0 <= k < items.len() && (#[trigger] items[k]).description@ == text::trimmed(
                pieces(text::trimmed(task))[i],
            ),
{
    law_every_clause_is_a_subtask(task);
    let k = speaking(pieces(text::trimmed(task)).take(i)) as int;
    assert(text::trimmed(pieces(text::trimmed(task))[i]).len() > 0);
    assert(items[k].description@ == planned(task)[k]);
}

/// Each subtask of a plan carries its own words, and an id that begins with them
/// and ends with its position.
pub proof fn law_subtasks_are_numbered_from_one(items: Seq<DeclareItem>, task: Seq<char>, k: int)
    requires
        items_for(items, planned(task)),
        0 <= k < items.len(),
    ensures
        ("-"@ + text::decimal((k + 1) as nat)).is_suffix_of(items[k].id@),
        sluggable(items[k].description@) ==> items[k].id@ == slug_words(items[k].description@)
            + ("-"@ + text::decimal((k + 1) as nat)),
        !sluggable(items[k].description@) ==> "step"@.is_prefix_of(items[k].id@),
{
    reveal_strlit("-");
    reveal_strlit("step-");
    reveal_strlit("step");
    let d = planned(task)[k];
    let id = items[k].id@;
    let tail = "-"@ + text::decimal((k + 1) as nat);
    assert(items[k].description@ == d);
    assert(id.subrange(id.len() - tail.len(), id.len() as int) == tail);
    if sluggable(d) {
        assert(id == slug_words(d) + tail);
    } else {
        assert(id.subrange(0, 4) == "step"@);
    }
}

/// Whether a task is cut before a place, or at the place over the given length.
pub open spec fn cut_by(s: Seq<char>, at: int, len: int) -> bool {
    cut(s) matches Some((p, n)) && (p < at || (p == at && n == len))
}

/// A task is cut at the leftmost of its conjunctions and list marks, and where two
/// of them begin at one place, at the longer one. A task without any is not cut.
pub proof fn law_tasks_are_cut_at_their_conjunctions(s: Seq<char>, q: int)
    ensures
        text::occurs_at(s, ", then "@, q) ==> cut_by(s, q, 7),
        text::occurs_at(s, ", and "@, q) ==> cut_by(s, q, 6),
        text::occurs_at(s, " then "@, q) ==> cut_by(s, q, 6),
        text::occurs_at(s, " and "@, q) ==> cut_by(s, q, 5),
        text::occurs_at(s, "; "@, q) ==> cut_by(s, q, 2),
        text::occurs_at(s, " & "@, q) ==> cut_by(s, q, 3),
        text::occurs_at(s, " + "@, q) ==> cut_by(s, q, 3),
        text::occurs_at(s, ", "@, q) && !text::occurs_at(s, ", then "@, q) && !text::occurs_at(
            s,
            ", and "@,
            q,
        ) ==> cut_by(s, q, 2),
        cut(s) matches Some((pos, len)) ==> seq![
            ", then "@,
            ", and "@,
            " then "@,
            " and "@,
            "; "@,
            " & "@,
            " + "@,
            ", "@,
        ].contains(s.subrange(pos, pos + len)),
{
    lemma_leftmost(s, MARKER_COUNT as nat);
    lemma_markers();
    lemma_marker_lengths();
    let m = markers();
    let all = seq![
        ", then "@,
        ", and "@,
        " then "@,
        " and "@,
        "; "@,
        " & "@,
        " + "@,
        ", "@,
    ];
    assert(m == all);
    assert(m[0] == ", then "@ && m[1] == ", and "@ && m[2] == " then "@ && m[3] == " and "@ && m[4]
        == "; "@ && m[5] == " & "@ && m[6] == " + "@ && m[7] == ", "@);
    match leftmost(s, MARKER_COUNT as nat) {
        Some((pos, k)) => {
            assert(text::occurs_at(s, m[k], pos));
            assert(k == 0 || k == 1 || k == 2 || k == 3 || k == 4 || k == 5 || k == 6 || k == 7);
            assert(s.subrange(pos, pos + m[k].len()) == all[k]);
            let first = s.subrange(pos, pos + m[k].len());
            assert(first[0] == s[pos] && first[1] == s[pos + 1]);
            assert forall|j: int| 0 <= j < 8 && #[trigger] text::occurs_at(s, m[j], q) implies pos
                < q || (pos == q && s.subrange(q, q + m[j].len())[0] == s[q] && s.subrange(
                q,
                q + m[j].len(),
            )[1] == s[q + 1]) by {}
            if m[k].len() >= 3 {
                assert(first[2] == s[pos + 2]);
            }
            assert forall|j: int| 0 <= j < 7 && #[trigger] text::occurs_at(s, m[j], q) && pos
                == q implies j == k by {
                let other = s.subrange(q, q + m[j].len());
                assert(other == m[j]);
                assert(other[0] == s[q] && other[1] == s[q + 1]);
                if m[j].len() >= 3 {
                    assert(other[2] == s[q + 2]);
                }
                assert(j == 0 || j == 1 || j == 2 || j == 3 || j == 4 || j == 5 || j == 6);
            }
        },
        None => {},
    }
}

proof fn lemma_marker_lengths()
    ensures
        ", then "@.len() == 7 && ", then "@[0] == ',' && ", then "@[1] == ' ' && ", then "@[2] == 't',
        ", and "@.len() == 6 && ", and "@[0] == ',' && ", and "@[1] == ' ' && ", and "@[2] == 'a',
        " then "@.len() == 6 && " then "@[0] == ' ' && " then "@[1] == 't',
        " and "@.len() == 5 && " and "@[0] == ' ' && " and "@[1] == 'a',
        "; "@.len() == 2 && "; "@[0] == ';',
        " & "@.len() == 3 && " & "@[0] == ' ' && " & "@[1] == '&',
        " + "@.len() == 3 && " + "@[0] == ' ' && " + "@[1] == '+',
        ", "@.len() == 2 && ", "@[0] == ',' && ", "@[1] == ' ',
{
    reveal_strlit(", then ");
    reveal_strlit(", and ");
    reveal_strlit(" then ");
    reveal_strlit(" and ");
    reveal_strlit("; ");
    reveal_strlit(" & ");
    reveal_strlit(" + ");
    reveal_strlit(", ");
}

/// No piece of a task holds a conjunction or a list mark.
pub proof fn law_no_piece_holds_a_conjunction(s: Seq<char>, i: int)
    requires
        0 <= i < pieces(s).len(),
    ensures
        !text::occurs(pieces(s)[i], ", then "@),
        !text::occurs(pieces(s)[i], ", and "@),
        !text::occurs(pieces(s)[i], " then "@),
        !text::occurs(pieces(s)[i], " and "@),
        !text::occurs(pieces(s)[i], "; "@),
        !text::occurs(pieces(s)[i], " & "@),
        !text::occurs(pieces(s)[i], " + "@),
        !text::occurs(pieces(s)[i], ", "@),
{
    law_no_piece_holds_a_marker(s, i, 0);
    law_no_piece_holds_a_marker(s, i, 1);
    law_no_piece_holds_a_marker(s, i, 2);
    law_no_piece_holds_a_marker(s, i, 3);
    law_no_piece_holds_a_marker(s, i, 4);
    law_no_piece_holds_a_marker(s, i, 5);
    law_no_piece_holds_a_marker(s, i, 6);
    law_no_piece_holds_a_marker(s, i, 7);
    let m = markers();
    assert(m[0] == ", then "@ && m[1] == ", and "@ && m[2] == " then "@ && m[3] == " and "@ && m[4]
        == "; "@ && m[5] == " & "@ && m[6] == " + "@ && m[7] == ", "@);
}

/// A task is cut nowhere else: what stands between two pieces is a conjunction or a
/// list mark.
pub proof fn law_only_conjunctions_are_left_out(s: Seq<char>, i: int)
    requires
        0 <= i < separators(s).len(),
    ensures
        seq![
            ", then "@,
            ", and "@,
            " then "@,
            " and "@,
            "; "@,
            " & "@,
            " + "@,
            ", "@,
        ].contains(separators(s)[i]),
    decreases s.len(),
{
    law_tasks_are_cut_at_their_conjunctions(s, 0);
    match cut(s) {
        None => {},
        Some((pos, len)) => {
            lemma_cut(s);
            if i > 0 {
                let tail = s.subrange(pos + len, s.len() as int);
                assert(separators(s)[i] == separators(tail)[i - 1]);
                law_only_conjunctions_are_left_out(tail, i - 1);
            }
        },
    }
}

/// The letters and digits of a text, in lower case.
pub open spec fn letters(s: Seq<char>) -> Seq<char>
    decreases s.len(),
{
    if s.len() == 0 {
        Seq::empty()
    } else if text::ascii_alphanumeric(s.last()) {
        letters(s.drop_last()).push(text::ascii_lower(s.last()))
    } else {
        letters(s.drop_last())
    }
}

proof fn lemma_letters_of_dashed(s: Seq<char>)
    ensures
        letters(dashed(s)) == letters(s),
    decreases s.len(),
{
    if s.len() > 0 {
        lemma_letters_of_dashed(s.drop_last());
        let before = dashed(s.drop_last());
        let d = dashed(s);
        if d.len() > before.len() {
            assert(d.drop_last() == before);
        }
    }
}

proof fn lemma_letters_prefix(s: Seq<char>, n: int)
    requires
        0 <= n <= s.len(),
    ensures
        letters(s.take(n)).is_prefix_of(letters(s)),
    decreases s.len(),
{
    if n < s.len() {
        lemma_letters_prefix(s.drop_last(), n);
        assert(s.drop_last().take(n) == s.take(n));
        let a = letters(s.take(n));
        let b = letters(s.drop_last());
        let c = letters(s);
        assert(c.subrange(0, a.len() as int) == b.subrange(0, a.len() as int));
    } else {
        assert(s.take(n) == s);
        assert(letters(s).subrange(0, letters(s).len() as int) == letters(s));
    }
}

proof fn lemma_letters_undashed(s: Seq<char>)
    ensures
        letters(undashed_end(s)) == letters(s),
    decreases s.len(),
{
    if s.len() > 0 && s.last() == '-' {
        lemma_letters_undashed(s.drop_last());
    }
}

/// A slug keeps the words of its description: read without dashes it is the start
/// of the description's letters and digits, and all of them where they fit.
pub proof fn law_slugs_keep_the_words(d: Seq<char>)
    ensures
        letters(slug_words(d)).is_prefix_of(letters(d)),
        d.len() <= 32 ==> letters(slug_words(d)) == letters(d),
{
    lemma_letters_of_dashed(d);
    let all = dashed(d);
    let full = undashed_end(all);
    lemma_letters_undashed(all);
    lemma_undashed(all);
    lemma_dashed_len(d);
    if full.len() > SLUG_CAP {
        lemma_letters_undashed(full.take(SLUG_CAP as int));
        lemma_letters_prefix(full, SLUG_CAP as int);
    } else {
        assert(letters(d).subrange(0, letters(d).len() as int) == letters(d));
    }
}

proof fn lemma_dashed_len(s: Seq<char>)
    ensures
        dashed(s).len() <= s.len(),
    decreases s.len(),
{
    if s.len() > 0 {
        lemma_dashed_len(s.drop_last());
    }
}

/// A text that is a slug already stays as it is.
pub proof fn law_slugs_stay_slugs(d: Seq<char>)
    requires
        0 < d.len() <= 32,
        forall|i: int| 0 <= i < d.len() ==> slug_char(#[trigger] d[i]),
        single_dashes(d),
        d[0] != '-',
        d.last() != '-',
    ensures
        slug_words(d) == d,
{
    lemma_dashed_of_slug(d);
}

proof fn lemma_dashed_of_slug(d: Seq<char>)
    requires
        forall|i: int| 0 <= i < d.len() ==> slug_char(#[trigger] d[i]),
        single_dashes(d),
        d.len() > 0 ==> d[0] != '-',
    ensures
        dashed(d) == d,
    decreases d.len(),
{
    if d.len() > 0 {
        let t = d.drop_last();
        assert forall|i: int| 0 <= i < t.len() implies slug_char(#[trigger] t[i]) by {
            assert(t[i] == d[i]);
        }
        assert forall|i: int| 0 < i < t.len() implies !((#[trigger] t[i]) == '-' && t[i - 1]
            == '-') by {
            assert(t[i] == d[i] && t[i - 1] == d[i - 1]);
        }
        lemma_dashed_of_slug(t);
        assert(d == t.push(d.last()));
        assert(slug_char(d[d.len() - 1]));
        if d.last() == '-' {
            assert(d[d.len() - 1] == '-');
            assert(t.len() > 0);
            assert(d[d.len() - 2] != '-');
        }
    }
}

/// What counts as done is read off the first word of an intent: a page for one that
/// goes somewhere, an element for one that enters something, and any fresh page for
/// all others.
pub proof fn law_acceptance_goes_by_the_first_word(rest: Seq<char>, lower: Seq<char>)
    ensures
        acceptance_kind("navigate"@ + rest) == AcceptanceKind::UrlAt,
        acceptance_kind("go to"@ + rest) == AcceptanceKind::UrlAt,
        acceptance_kind("open"@ + rest) == AcceptanceKind::UrlAt,
        acceptance_kind("type"@ + rest) == AcceptanceKind::ElementPresent,
        acceptance_kind("send"@ + rest) == AcceptanceKind::ElementPresent,
        acceptance_kind("text"@ + rest) == AcceptanceKind::ElementPresent,
        lower.len() > 0 && lower[0] != 'n' && lower[0] != 'g' && lower[0] != 'o' && lower[0] != 't'
            && lower[0] != 's' ==> acceptance_kind(lower) == AcceptanceKind::AnySnapshot,
{
    reveal_strlit("navigate");
    reveal_strlit("go to");
    reveal_strlit("open");
    reveal_strlit("type");
    reveal_strlit("send");
    reveal_strlit("text");
    assert(("navigate"@ + rest).subrange(0, 8) == "navigate"@);
    assert(("go to"@ + rest).subrange(0, 5) == "go to"@);
    assert(("open"@ + rest).subrange(0, 4) == "open"@);
    let a = "type"@ + rest;
    let b = "send"@ + rest;
    let c = "text"@ + rest;
    assert(a.subrange(0, 4) == "type"@ && b.subrange(0, 4) == "send"@ && c.subrange(0, 4)
        == "text"@);
    assert(a[0] == 't' && b[0] == 's' && c[0] == 't');
    lemma_first_of_prefix("navigate"@, a);
    lemma_first_of_prefix("go to"@, a);
    lemma_first_of_prefix("open"@, a);
    lemma_first_of_prefix("navigate"@, b);
    lemma_first_of_prefix("go to"@, b);
    lemma_first_of_prefix("open"@, b);
    lemma_first_of_prefix("navigate"@, c);
    lemma_first_of_prefix("go to"@, c);
    lemma_first_of_prefix("open"@, c);
    lemma_first_of_prefix("navigate"@, lower);
    lemma_first_of_prefix("go to"@, lower);
    lemma_first_of_prefix("open"@, lower);
    lemma_first_of_prefix("type"@, lower);
    lemma_first_of_prefix("send"@, lower);
    lemma_first_of_prefix("text"@, lower);
}

proof fn lemma_first_of_prefix(p: Seq<char>, s: Seq<char>)
    requires
        p.len() > 0,
    ensures
        p.is_prefix_of(s) ==> s.len() > 0 && s[0] == p[0],
{
    if p.is_prefix_of(s) {
        assert(s.subrange(0, p.len() as int)[0] == s[0]);
    }
}

/// A handoff is worked through subtask by subtask, in order, each waiting for the
/// one before it; one without subtasks by the plan of its task.
pub proof fn law_handoffs_are_worked_through_in_order(h: Handoff, todos: Seq<Todo>, i: int)
    requires
        todos_for(todos, work_items(h)),
        0 <= i < todos.len(),
    ensures
        h.subtasks@.len() > 0 ==> {
            &&& todos.len() == h.subtasks@.len()
            &&& todos[i].id.0@ == h.subtasks@[i].id@
            &&& todos[i].intent@ == h.subtasks@[i].description@
        },
        h.subtasks@.len() == 0 ==> {
            &&& todos.len() == planned(h.task_description@).len()
            &&& todos[i].intent@ == planned(h.task_description@)[i]
        },
        todos[i].status is Pending && todos[i].attempts == 0,
        i == 0 ==> todos[i].depends_on@.len() == 0,
        i > 0 ==> todos[i].depends_on@.len() == 1 && todos[i].depends_on@[0] == todos[i - 1].id,
        todos[i].acceptance is Some && todos[i].acceptance->0.detail@ == todos[i].intent@,
{
    assert(fresh_todo(todos[i], work_items(h)[i]));
}

/// Why a task was planned as it was tells into how many subtasks it was split.
pub proof fn law_the_rationale_tells_the_count(task: Seq<char>)
    requires
        planned(task).len() >= 2,
    ensures
        text::occurs(
            rationale_text(task),
            " into "@ + text::decimal(planned(task).len()) + " subtask(s)."@,
        ),
{
    reveal_strlit("split on ");
    reveal_strlit(" clause-boundary marker(s) into ");
    reveal_strlit(" into ");
    reveal_strlit(" subtask(s).");
    let r = rationale_text(task);
    let p = " into "@ + text::decimal(planned(task).len()) + " subtask(s)."@;
    let t = text::trimmed(task);
    assert(t.len() > 0 && clauses(task).len() > 1);
    assert(r.subrange(r.len() - p.len(), r.len() as int) == p);
    assert(text::occurs_at(r, p, r.len() - p.len()));
}

} // verus!
