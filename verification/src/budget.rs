//! Step and time budgets of subtasks.
//!
//! A slow platform must not stall a whole task. Each subtask may take a number of
//! steps and a number of seconds; the loop ticks the budget after every tool call
//! and closes the subtask as exhausted once a cap is passed.

use vstd::prelude::*;
use vstd::hash_map::StringHashMap;
use crate::clock;
use crate::completeness::{CompletenessTracker, SubTaskStatus};
use crate::completeness;
use crate::research::{ResearchPlan, ResearchSubTask};
use crate::text;

verus! {

/// The caps of one subtask; `0` stands for no cap.
#[derive(Debug, Clone, Copy, PartialEq, Eq, Structural)]
pub struct SubtaskBudget {
    pub step_budget: u32,
    pub time_budget_secs: u64,
}

impl SubtaskBudget {
    pub open spec fn of(s: ResearchSubTask) -> SubtaskBudget {
        SubtaskBudget { step_budget: s.step_budget, time_budget_secs: s.time_budget_secs }
    }

    /// Neither steps nor seconds are capped.
    pub open spec fn unlimited(self) -> bool {
        self.step_budget == 0 && self.time_budget_secs == 0
    }

    pub fn from_research_subtask(s: &ResearchSubTask) -> (r: Self)
        ensures
            r == SubtaskBudget::of(*s),
    {
        SubtaskBudget { step_budget: s.step_budget, time_budget_secs: s.time_budget_secs }
    }

    pub fn is_unlimited(&self) -> (r: bool)
        ensures
            r == self.unlimited(),
    {
        self.step_budget == 0 && self.time_budget_secs == 0
    }
}

impl Default for SubtaskBudget {
    fn default() -> (r: Self)
        ensures
            r == (SubtaskBudget { step_budget: 10, time_budget_secs: 75 }),
    {
        SubtaskBudget { step_budget: 10, time_budget_secs: 75 }
    }
}

/// What the budget says after a tool call.
#[derive(Debug, Clone, Copy, PartialEq, Eq, Structural)]
pub enum BudgetDecision {
    /// Under both caps.
    StillUnder { steps_used: u32, steps_max: u32, elapsed_secs: u64, time_max_secs: u64 },
    /// More steps than allowed.
    StepExhausted { used: u32, max: u32 },
    /// More seconds than allowed.
    TimeExhausted { elapsed: u64, limit: u64 },
    /// The subtask has no budget.
    UnknownSubtask,
}

impl BudgetDecision {
    pub open spec fn exhausted(self) -> bool {
        self is StepExhausted || self is TimeExhausted
    }

    /// The reason with which an exhausted subtask is closed.
    pub open spec fn spec_reason(self) -> Option<Seq<char>> {
        match self {
            BudgetDecision::StepExhausted { used, max } => Some(
                "step budget exhausted: "@ + text::decimal(used as nat) + "/"@ + text::decimal(
                    max as nat,
                ),
            ),
            BudgetDecision::TimeExhausted { elapsed, limit } => Some(
                "time budget exhausted: "@ + text::decimal(elapsed as nat) + "s / "@
                    + text::decimal(limit as nat) + "s"@,
            ),
            _ => None,
        }
    }

    /// What the decision does to the list of subtasks: one that is exhausted is closed,
    /// with the reason.
    pub open spec fn enforced(
        self,
        before: CompletenessTracker,
        id: Seq<char>,
        now: u64,
        after: CompletenessTracker,
    ) -> bool {
        &&& after.same_session(before)
        &&& after.snapshot_since_mark == before.snapshot_since_mark
        &&& self.exhausted() ==> exists|reason: String|
            reason@ == self.spec_reason()->0 && after.subtasks@ == #[trigger] before.after_resolve(
                id,
                SubTaskStatus::Exhausted { reason },
                now,
            )
        &&& !self.exhausted() ==> after == before
    }

    pub fn is_exhausted(&self) -> (r: bool)
        ensures
            r == self.exhausted(),
    {
        match self {
            BudgetDecision::StepExhausted { .. } => true,
            BudgetDecision::TimeExhausted { .. } => true,
            _ => false,
        }
    }

    pub fn reason(&self) -> (r: Option<String>)
        ensures
            text::opt_view(r) == self.spec_reason(),
    {
        match self {
            BudgetDecision::StepExhausted { used, max } => {
                let mut out = text::owned("step budget exhausted: ");
                out.append(text::decimal_of(*used as u64).as_str());
                out.append("/");
                out.append(text::decimal_of(*max as u64).as_str());
                Some(out)
            },
            BudgetDecision::TimeExhausted { elapsed, limit } => {
                let mut out = text::owned("time budget exhausted: ");
                out.append(text::decimal_of(*elapsed).as_str());
                out.append("s / ");
                out.append(text::decimal_of(*limit).as_str());
                out.append("s");
                Some(out)
            },
            _ => None,
        }
    }
}

/// The decision for a subtask with the given caps after `used` steps and
/// `elapsed` seconds. The step cap wins where both are passed.
pub open spec fn decide(cap: SubtaskBudget, used: u32, elapsed: u64) -> BudgetDecision {
    if cap.unlimited() {
        BudgetDecision::StillUnder {
            steps_used: used,
            steps_max: 0,
            elapsed_secs: 0,
            time_max_secs: 0,
        }
    } else if cap.step_budget > 0 && used > cap.step_budget {
        BudgetDecision::StepExhausted { used, max: cap.step_budget }
    } else if cap.time_budget_secs > 0 && elapsed > cap.time_budget_secs {
        BudgetDecision::TimeExhausted { elapsed, limit: cap.time_budget_secs }
    } else {
        BudgetDecision::StillUnder {
            steps_used: used,
            steps_max: cap.step_budget,
            elapsed_secs: elapsed,
            time_max_secs: cap.time_budget_secs,
        }
    }
}

/// The budgets of a session, with what has been used of them.
pub struct Budget {
    rows: StringHashMap<SubtaskBudget>,
    steps: StringHashMap<u32>,
    started: StringHashMap<u64>,
}

/// The caps of the first `n` platforms; a later one with the same id replaces the
/// earlier.
pub open spec fn platform_caps(platforms: Seq<ResearchSubTask>, n: nat) -> Map<
    Seq<char>,
    SubtaskBudget,
>
    decreases n,
{
    if n == 0 {
        Map::empty()
    } else {
        platform_caps(platforms, (n - 1) as nat).insert(
            platforms[n - 1].id@,
            SubtaskBudget::of(platforms[n - 1]),
        )
    }
}

/// The caps of the first `n` rows; a later one with the same id replaces the
/// earlier.
pub open spec fn row_caps(rows: Seq<(String, SubtaskBudget)>, n: nat) -> Map<
    Seq<char>,
    SubtaskBudget,
>
    decreases n,
{
    if n == 0 {
        Map::empty()
    } else {
        row_caps(rows, (n - 1) as nat).insert(rows[n - 1].0@, rows[n - 1].1)
    }
}

impl Budget {
    /// The caps by id.
    pub closed spec fn caps(self) -> Map<Seq<char>, SubtaskBudget> {
        self.rows@
    }

    /// The steps counted by id.
    pub closed spec fn counted(self) -> Map<Seq<char>, u32> {
        self.steps@
    }

    /// The second of the first tick by id.
    pub closed spec fn starts(self) -> Map<Seq<char>, u64> {
        self.started@
    }

    /// The steps used on a subtask.
    pub open spec fn used(self, id: Seq<char>) -> u32 {
        if self.counted().contains_key(id) {
            self.counted()[id]
        } else {
            0
        }
    }

    /// The second from which the time of a subtask is counted at `now`.
    pub open spec fn start_at(self, id: Seq<char>, now: u64) -> u64 {
        if self.starts().contains_key(id) {
            self.starts()[id]
        } else {
            now
        }
    }

    /// The seconds that a subtask has taken at `now`.
    pub open spec fn elapsed(self, id: Seq<char>, now: u64) -> u64 {
        let start = self.start_at(id, now);
        if now > start {
            (now - start) as u64
        } else {
            0
        }
    }

    /// The decision of a tick.
    pub open spec fn tick_decision(self, id: Seq<char>, now: u64) -> BudgetDecision {
        if self.caps().contains_key(id) {
            decide(self.caps()[id], (self.used(id) + 1) as u32, self.elapsed(id, now))
        } else {
            BudgetDecision::UnknownSubtask
        }
    }

    /// Whether one more step of a subtask can be counted.
    pub open spec fn can_count(self, id: Seq<char>) -> bool {
        self.caps().contains_key(id) ==> self.used(id) < u32::MAX
    }

    /// Whether `next` is this budget after a tick.
    pub open spec fn ticked(self, id: Seq<char>, now: u64, next: Budget) -> bool {
        &&& next.caps() == self.caps()
        &&& if self.caps().contains_key(id) {
            &&& next.counted() == self.counted().insert(id, (self.used(id) + 1) as u32)
            &&& next.starts() == self.starts().insert(id, self.start_at(id, now))
        } else {
            &&& next.counted() == self.counted()
            &&& next.starts() == self.starts()
        }
    }

    /// Whether `next` is this budget once a subtask is reset.
    pub open spec fn forgot(self, id: Seq<char>, next: Budget) -> bool {
        &&& next.caps() == self.caps()
        &&& next.counted() == self.counted().remove(id)
        &&& next.starts() == self.starts().remove(id)
    }

    fn empty() -> (r: Self)
        ensures
            r.caps() == Map::<Seq<char>, SubtaskBudget>::empty(),
            r.counted() == Map::<Seq<char>, u32>::empty(),
            r.starts() == Map::<Seq<char>, u64>::empty(),
    {
        Budget {
            rows: StringHashMap::new(),
            steps: StringHashMap::new(),
            started: StringHashMap::new(),
        }
    }

    /// The budgets of a research plan, one for each platform.
    pub fn from_research_plan(plan: &ResearchPlan) -> (r: Self)
        ensures
            r.caps() == platform_caps(plan.platforms@, plan.platforms@.len()),
            r.counted() == Map::<Seq<char>, u32>::empty(),
            r.starts() == Map::<Seq<char>, u64>::empty(),
    {
        let mut b = Budget::empty();
        let mut i: usize = 0;
        while i < plan.platforms.len()
            invariant
                i <= plan.platforms@.len(),
                b.caps() == platform_caps(plan.platforms@, i as nat),
                b.counted() == Map::<Seq<char>, u32>::empty(),
                b.starts() == Map::<Seq<char>, u64>::empty(),
            decreases plan.platforms@.len() - i,
        {
            let p = &plan.platforms[i];
            b.rows.insert(p.id.clone(), SubtaskBudget::from_research_subtask(p));
            i += 1;
        }
        b
    }

    /// The budgets of an explicit list.
    pub fn from_rows(rows: Vec<(String, SubtaskBudget)>) -> (r: Self)
        ensures
            r.caps() == row_caps(rows@, rows@.len()),
            r.counted() == Map::<Seq<char>, u32>::empty(),
            r.starts() == Map::<Seq<char>, u64>::empty(),
    {
        let mut b = Budget::empty();
        let mut i: usize = 0;
        while i < rows.len()
            invariant
                i <= rows@.len(),
                b.caps() == row_caps(rows@, i as nat),
                b.counted() == Map::<Seq<char>, u32>::empty(),
                b.starts() == Map::<Seq<char>, u64>::empty(),
            decreases rows@.len() - i,
        {
            b.rows.insert(rows[i].0.clone(), rows[i].1);
            i += 1;
        }
        b
    }

    /// The number of subtasks with a budget.
    pub fn len(&self) -> (r: usize)
        ensures
            r == self.caps().len(),
    {
        self.rows.len()
    }

    pub fn is_empty(&self) -> (r: bool)
        ensures
            r == self.caps().is_empty(),
    {
        self.rows.is_empty()
    }

    /// The caps of a subtask.
    pub fn get(&self, id: &str) -> (r: Option<SubtaskBudget>)
        ensures
            match r {
                Some(cap) => self.caps().contains_key(id@) && cap == self.caps()[id@],
                None => !self.caps().contains_key(id@),
            },
    {
        match self.rows.get(id) {
            Some(cap) => Some(*cap),
            None => None,
        }
    }

    /// The steps used on a subtask, `0` where none was counted.
    pub fn steps_used(&self, id: &str) -> (r: u32)
        ensures
            r == self.used(id@),
    {
        match self.steps.get(id) {
            Some(n) => *n,
            None => 0,
        }
    }

    /// Forgets what a subtask has used, as it is tried anew.
    pub fn reset(&mut self, id: &str)
        ensures
            old(self).forgot(id@, *final(self)),
    {
        self.steps.remove(id);
        self.started.remove(id);
    }

    /// Counts one step of a subtask and compares it with its caps. The time of a
    /// subtask runs from its first tick.
    pub fn tick(&mut self, id: &str, now_secs: u64) -> (r: BudgetDecision)
        requires
            old(self).can_count(id@),
        ensures
            r == old(self).tick_decision(id@, now_secs),
            old(self).ticked(id@, now_secs, *final(self)),
    {
        let cap = match self.get(id) {
            Some(cap) => cap,
            None => return BudgetDecision::UnknownSubtask,
        };
        let used: u32 = self.steps_used(id) + 1;
        let start: u64 = match self.started.get(id) {
            Some(s) => *s,
            None => now_secs,
        };
        self.steps.insert(text::owned(id), used);
        self.started.insert(text::owned(id), start);
        if cap.is_unlimited() {
            return BudgetDecision::StillUnder {
                steps_used: used,
                steps_max: 0,
                elapsed_secs: 0,
                time_max_secs: 0,
            };
        }
        let elapsed: u64 = now_secs.saturating_sub(start);
        if cap.step_budget > 0 && used > cap.step_budget {
            return BudgetDecision::StepExhausted { used, max: cap.step_budget };
        }
        if cap.time_budget_secs > 0 && elapsed > cap.time_budget_secs {
            return BudgetDecision::TimeExhausted { elapsed, limit: cap.time_budget_secs };
        }
        BudgetDecision::StillUnder {
            steps_used: used,
            steps_max: cap.step_budget,
            elapsed_secs: elapsed,
            time_max_secs: cap.time_budget_secs,
        }
    }

    /// Ticks, and closes the subtask as exhausted where a cap was passed. A
    /// subtask that was resolved before stays as it is.
    pub fn tick_and_enforce(
        &mut self,
        tracker: &mut CompletenessTracker,
        id: &str,
        now_secs: u64,
    ) -> (r: BudgetDecision)
        requires
            old(self).can_count(id@),
        ensures
            r == old(self).tick_decision(id@, now_secs),
            old(self).ticked(id@, now_secs, *final(self)),
            exists|now: u64| #[trigger] r.enforced(*old(tracker), id@, now, *final(tracker)),
    {
        let now: u64 = clock::now_secs();
        self.tick_and_enforce_at(tracker, id, now_secs, now)
    }

    /// Ticks, and closes the subtask as exhausted at the second `now` where a cap
    /// was passed. A subtask that was resolved before stays as it is.
    pub fn tick_and_enforce_at(
        &mut self,
        tracker: &mut CompletenessTracker,
        id: &str,
        now_secs: u64,
        now: u64,
    ) -> (r: BudgetDecision)
        requires
            old(self).can_count(id@),
        ensures
            r == old(self).tick_decision(id@, now_secs),
            old(self).ticked(id@, now_secs, *final(self)),
            r.enforced(*old(tracker), id@, now, *final(tracker)),
    {
        let d = self.tick(id, now_secs);
        if let Some(reason) = d.reason() {
            let ghost before = *tracker;
            let ghost shown = reason;
            let _ = tracker.mark_exhausted_at(id, reason, now);
            assert(tracker.subtasks@ == before.after_resolve(
                id@,
                SubTaskStatus::Exhausted { reason: shown },
                now,
            ));
        }
        d
    }
}

/// The budgets of a research plan.
pub fn budget_for(plan: &ResearchPlan) -> (r: Budget)
    ensures
        r.caps() == platform_caps(plan.platforms@, plan.platforms@.len()),
        r.counted() == Map::<Seq<char>, u32>::empty(),
        r.starts() == Map::<Seq<char>, u64>::empty(),
{
    Budget::from_research_plan(plan)
}

/// The present second since the epoch. Nothing is claimed of the reading.
pub fn now_secs() -> u64 {
    clock::now_secs()
}

// ---------------------------------------------------------------------------
// Laws
// ---------------------------------------------------------------------------

/// A subtask without caps is never exhausted, however often it is ticked.
pub proof fn law_unlimited_never_fires(b: Budget, id: Seq<char>, now: u64)
    requires
        b.caps().contains_key(id),
        b.caps()[id].unlimited(),
    ensures
        !b.tick_decision(id, now).exhausted(),
{
}

/// A subtask without a budget is never exhausted, and its ticks are not counted.
pub proof fn law_unknown_subtasks_are_ignored(b: Budget, id: Seq<char>, now: u64, next: Budget)
    requires
        !b.caps().contains_key(id),
        b.ticked(id, now, next),
    ensures
        b.tick_decision(id, now) is UnknownSubtask,
        next.counted() == b.counted(),
        next.starts() == b.starts(),
{
}

/// Where both caps are passed at once, the step cap is reported.
pub proof fn law_step_cap_wins(cap: SubtaskBudget, used: u32, elapsed: u64)
    requires
        0 < cap.step_budget < used,
    ensures
        decide(cap, used, elapsed) == (BudgetDecision::StepExhausted {
            used,
            max: cap.step_budget,
        }),
{
}

/// Only steps and seconds beyond a cap exhaust a subtask, and they always do.
pub proof fn law_exhausted_iff_beyond_a_cap(cap: SubtaskBudget, used: u32, elapsed: u64)
    ensures
        decide(cap, used, elapsed).exhausted() <==> (cap.step_budget > 0 && used > cap.step_budget)
            || (cap.time_budget_secs > 0 && elapsed > cap.time_budget_secs),
{
}

/// Ticking one subtask leaves the use of every other one alone.
pub proof fn law_ticks_are_independent(
    b: Budget,
    id: Seq<char>,
    other: Seq<char>,
    now: u64,
    at: u64,
    next: Budget,
)
    requires
        b.ticked(id, now, next),
        id != other,
    ensures
        next.used(other) == b.used(other),
        next.elapsed(other, at) == b.elapsed(other, at),
{
}

/// After a reset a subtask starts from nothing: no steps, and no seconds at the
/// time of its next tick.
pub proof fn law_reset_starts_anew(b: Budget, id: Seq<char>, now: u64, next: Budget)
    requires
        b.forgot(id, next),
    ensures
        next.used(id) == 0,
        next.elapsed(id, now) == 0,
{
}

/// Closing a subtask a second time changes nothing: the first reason stays.
pub proof fn law_first_reason_stays(
    t: CompletenessTracker,
    next: CompletenessTracker,
    id: Seq<char>,
    first: SubTaskStatus,
    second: SubTaskStatus,
    now: u64,
    later: u64,
)
    requires
        first.terminal(),
        next.subtasks@ == t.after_resolve(id, first, now),
    ensures
        next.after_resolve(id, second, later) == next.subtasks@,
{
    completeness::lemma_lookup_from(t.subtasks@, id, 0);
    completeness::lemma_lookup_from(next.subtasks@, id, 0);
    match completeness::lookup(t.subtasks@, id) {
        Some(i) => {
            assert(next.subtasks@[i].id@ == id);
            assert(next.subtasks@[i].status.terminal());
            let k = completeness::lookup(next.subtasks@, id)->0;
            if k < i {
                assert(next.subtasks@[k].id@ == t.subtasks@[k].id@);
            }
        },
        None => {},
    }
}

/// A call that changes what has been used.
pub ghost enum BudgetCall {
    Tick { id: Seq<char>, now: u64 },
    Reset { id: Seq<char> },
}

/// Whether a budget went through `states`, from no use on, by one call after the
/// other, each of which it could take.
pub open spec fn ran(states: Seq<Budget>, calls: Seq<BudgetCall>) -> bool {
    &&& states.len() == calls.len() + 1
    &&& states[0].counted() == Map::<Seq<char>, u32>::empty()
    &&& states[0].starts() == Map::<Seq<char>, u64>::empty()
    &&& forall|i: int|
        0 <= i < calls.len() ==> match #[trigger] calls[i] {
            BudgetCall::Tick { id, now } => states[i].can_count(id) && states[i].ticked(
                id,
                now,
                states[i + 1],
            ),
            BudgetCall::Reset { id } => states[i].forgot(id, states[i + 1]),
        }
}

/// The ticks of a subtask since it was last reset.
pub open spec fn ticks_since_reset(calls: Seq<BudgetCall>, id: Seq<char>) -> nat
    decreases calls.len(),
{
    if calls.len() == 0 {
        0
    } else {
        let before = ticks_since_reset(calls.drop_last(), id);
        match calls.last() {
            BudgetCall::Tick { id: ticked, .. } => if ticked == id {
                before + 1
            } else {
                before
            },
            BudgetCall::Reset { id: forgotten } => if forgotten == id {
                0
            } else {
                before
            },
        }
    }
}

/// The second of the first tick of a subtask since it was last reset.
pub open spec fn first_tick_since_reset(calls: Seq<BudgetCall>, id: Seq<char>) -> Option<u64>
    decreases calls.len(),
{
    if calls.len() == 0 {
        None
    } else {
        let before = first_tick_since_reset(calls.drop_last(), id);
        match calls.last() {
            BudgetCall::Tick { id: ticked, now } => if ticked == id && before is None {
                Some(now)
            } else {
                before
            },
            BudgetCall::Reset { id: forgotten } => if forgotten == id {
                None
            } else {
                before
            },
        }
    }
}

/// Whatever was called, the steps used on a subtask with a budget are its ticks
/// since its last reset, and its time runs from the first of them. Nothing is ever
/// used on a subtask without a budget, and no call changes a cap.
pub proof fn law_use_is_counted_since_the_last_reset(
    states: Seq<Budget>,
    calls: Seq<BudgetCall>,
    id: Seq<char>,
    now: u64,
)
    requires
        ran(states, calls),
    ensures
        states.last().caps() == states[0].caps(),
        states.last().used(id) == (if states[0].caps().contains_key(id) {
            ticks_since_reset(calls, id)
        } else {
            0
        }),
        states.last().start_at(id, now) == match first_tick_since_reset(calls, id) {
            Some(first) => if states[0].caps().contains_key(id) {
                first
            } else {
                now
            },
            None => now,
        },
{
    lemma_use(states, calls, id);
}

proof fn lemma_use(states: Seq<Budget>, calls: Seq<BudgetCall>, id: Seq<char>)
    requires
        ran(states, calls),
    ensures
        states.last().caps() == states[0].caps(),
        states[0].caps().contains_key(id) ==> {
            &&& states.last().used(id) == ticks_since_reset(calls, id)
            &&& states.last().starts().contains_key(id) <==> first_tick_since_reset(
                calls,
                id,
            ) is Some
            &&& first_tick_since_reset(calls, id) is Some ==> states.last().starts()[id]
                == first_tick_since_reset(calls, id)->0
        },
        !states[0].caps().contains_key(id) ==> !states.last().counted().contains_key(id)
            && !states.last().starts().contains_key(id),
    decreases calls.len(),
{
    if calls.len() > 0 {
        let n = calls.len() as int;
        let head = calls.drop_last();
        let earlier = states.drop_last();
        assert(ran(earlier, head)) by {
            assert forall|i: int| 0 <= i < head.len() implies match #[trigger] head[i] {
                BudgetCall::Tick { id, now } => earlier[i].can_count(id) && earlier[i].ticked(
                    id,
                    now,
                    earlier[i + 1],
                ),
                BudgetCall::Reset { id } => earlier[i].forgot(id, earlier[i + 1]),
            } by {
                assert(head[i] == calls[i]);
            }
        }
        lemma_use(earlier, head, id);
        assert(earlier.last() == states[n - 1]);
        assert(calls[n - 1] == calls.last());
    }
}

proof fn lemma_platform_cap(platforms: Seq<ResearchSubTask>, n: nat, id: Seq<char>)
    requires
        n <= platforms.len(),
    ensures
        platform_caps(platforms, n).contains_key(id) <==> exists|i: int|
            0 <= i < n && (#[trigger] platforms[i]).id@ == id,
        forall|i: int|
            0 <= i < n && (#[trigger] platforms[i]).id@ == id && (forall|j: int|
                i < j < n ==> (#[trigger] platforms[j]).id@ != id) ==> platform_caps(
                platforms,
                n,
            )[id] == (SubtaskBudget {
                step_budget: platforms[i].step_budget,
                time_budget_secs: platforms[i].time_budget_secs,
            }),
    decreases n,
{
    if n > 0 {
        lemma_platform_cap(platforms, (n - 1) as nat, id);
        assert(platforms[n - 1] == platforms[n - 1]);
        if platforms[n - 1].id@ != id {
            assert forall|i: int|
                0 <= i < n && (#[trigger] platforms[i]).id@ == id && (forall|j: int|
                    i < j < n ==> (#[trigger] platforms[j]).id@ != id) implies platform_caps(
                platforms,
                n,
            )[id] == (SubtaskBudget {
                step_budget: platforms[i].step_budget,
                time_budget_secs: platforms[i].time_budget_secs,
            }) by {
                assert(i < n - 1);
            }
        }
    }
}

/// Every platform of a plan has the budget that the plan gives it, and nothing else has
/// one; of two platforms with one id the later one counts.
pub proof fn law_platforms_keep_their_budget(platforms: Seq<ResearchSubTask>, i: int, id: Seq<char>)
    ensures
        0 <= i < platforms.len() && (forall|j: int|
            i < j < platforms.len() ==> (#[trigger] platforms[j]).id@ != platforms[i].id@) ==> {
            let caps = platform_caps(platforms, platforms.len());
            &&& caps.contains_key(platforms[i].id@)
            &&& caps[platforms[i].id@].step_budget == platforms[i].step_budget
            &&& caps[platforms[i].id@].time_budget_secs == platforms[i].time_budget_secs
        },
        platform_caps(platforms, platforms.len()).contains_key(id) ==> exists|k: int|
            0 <= k < platforms.len() && (#[trigger] platforms[k]).id@ == id,
{
    lemma_platform_cap(platforms, platforms.len(), id);
    if 0 <= i < platforms.len() {
        lemma_platform_cap(platforms, platforms.len(), platforms[i].id@);
    }
}

proof fn lemma_row_cap(rows: Seq<(String, SubtaskBudget)>, n: nat, id: Seq<char>)
    requires
        n <= rows.len(),
    ensures
        row_caps(rows, n).contains_key(id) <==> exists|i: int|
            0 <= i < n && (#[trigger] rows[i]).0@ == id,
        forall|i: int|
            0 <= i < n && (#[trigger] rows[i]).0@ == id && (forall|j: int|
                i < j < n ==> (#[trigger] rows[j]).0@ != id) ==> row_caps(rows, n)[id] == rows[i].1,
    decreases n,
{
    if n > 0 {
        lemma_row_cap(rows, (n - 1) as nat, id);
        assert(rows[n - 1] == rows[n - 1]);
        if rows[n - 1].0@ != id {
            assert forall|i: int|
                0 <= i < n && (#[trigger] rows[i]).0@ == id && (forall|j: int|
                    i < j < n ==> (#[trigger] rows[j]).0@ != id) implies row_caps(rows, n)[id]
                == rows[i].1 by {
                assert(i < n - 1);
            }
        }
    }
}

/// Every row gives its subtask its budget, and nothing else has one; of two rows for one
/// subtask the later one counts.
pub proof fn law_rows_keep_their_budget(
    rows: Seq<(String, SubtaskBudget)>,
    i: int,
    id: Seq<char>,
)
    ensures
        0 <= i < rows.len() && (forall|j: int|
            i < j < rows.len() ==> (#[trigger] rows[j]).0@ != rows[i].0@) ==> {
            &&& row_caps(rows, rows.len()).contains_key(rows[i].0@)
            &&& row_caps(rows, rows.len())[rows[i].0@] == rows[i].1
        },
        row_caps(rows, rows.len()).contains_key(id) ==> exists|k: int|
            0 <= k < rows.len() && (#[trigger] rows[k]).0@ == id,
{
    lemma_row_cap(rows, rows.len(), id);
    if 0 <= i < rows.len() {
        lemma_row_cap(rows, rows.len(), rows[i].0@);
    }
}

/// The reason of an exhausted budget tells what was used and what there was, and a
/// decision has a reason exactly where it exhausts.
pub proof fn law_reasons_tell_use_and_cap(d: BudgetDecision)
    ensures
        d.spec_reason() is Some <==> d is StepExhausted || d is TimeExhausted,
        d.exhausted() <==> d is StepExhausted || d is TimeExhausted,
        d matches BudgetDecision::StepExhausted { used, max } ==> {
            &&& text::occurs(d.spec_reason()->0, "step budget exhausted: "@ + text::decimal(used as nat))
            &&& text::occurs(d.spec_reason()->0, "/"@ + text::decimal(max as nat))
        },
        d matches BudgetDecision::TimeExhausted { elapsed, limit } ==> {
            &&& text::occurs(
                d.spec_reason()->0,
                "time budget exhausted: "@ + text::decimal(elapsed as nat),
            )
            &&& text::occurs(d.spec_reason()->0, "s / "@ + text::decimal(limit as nat))
        },
{
    broadcast use text::group_occurs;

}

/// A decision tells what was used and what the caps are.
pub proof fn law_decisions_tell_the_use(cap: SubtaskBudget, used: u32, elapsed: u64)
    ensures
        decide(cap, used, elapsed) matches BudgetDecision::StepExhausted { used: u, max } ==> u
            == used && max == cap.step_budget,
        decide(cap, used, elapsed) matches BudgetDecision::TimeExhausted { elapsed: e, limit } ==> e
            == elapsed && limit == cap.time_budget_secs,
        decide(cap, used, elapsed) matches BudgetDecision::StillUnder { steps_used, steps_max, .. }
            ==> steps_used == used && steps_max == cap.step_budget,
        decide(cap, used, elapsed) matches BudgetDecision::StillUnder {
            elapsed_secs,
            time_max_secs,
            ..
        } ==> time_max_secs == cap.time_budget_secs && (cap.step_budget > 0 || cap.time_budget_secs
            > 0 ==> elapsed_secs == elapsed),
{
}

/// Two ticks of a subtask are two steps, and its time runs from the first of them.
pub proof fn law_ticks_are_counted_and_timed(
    b: Budget,
    id: Seq<char>,
    first: u64,
    second: u64,
    mid: Budget,
    after: Budget,
)
    requires
        b.caps().contains_key(id),
        b.used(id) + 2 <= u32::MAX,
        b.ticked(id, first, mid),
        mid.ticked(id, second, after),
        first <= second,
    ensures
        mid.used(id) == b.used(id) + 1,
        after.used(id) == b.used(id) + 2,
        !b.starts().contains_key(id) ==> mid.elapsed(id, second) == second - first
            && after.elapsed(id, second) == second - first,
        !b.starts().contains_key(id) && !b.counted().contains_key(id) ==> mid.tick_decision(
            id,
            second,
        ) == decide(b.caps()[id], 2, (second - first) as u64),
{
}

/// A subtask that passes a cap is closed as exhausted, for the reason that tells its use,
/// and no other subtask is touched; within its caps nothing changes.
pub proof fn law_exhausted_subtasks_are_closed(
    d: BudgetDecision,
    before: CompletenessTracker,
    id: Seq<char>,
    now: u64,
    after: CompletenessTracker,
    i: int,
)
    requires
        d.enforced(before, id, now, after),
        0 <= i < before.subtasks@.len(),
    ensures
        !d.exhausted() ==> after == before,
        after.snapshot_since_mark == before.snapshot_since_mark,
        after.finish_attempts == before.finish_attempts,
        after.last_snapshot_signature == before.last_snapshot_signature,
        before.subtasks@[i].id@ != id ==> after.subtasks@[i] == before.subtasks@[i],
        d.exhausted() && before.subtasks@[i].id@ == id && before.subtasks@[i].status is Pending && (
        forall|j: int| 0 <= j < i ==> (#[trigger] before.subtasks@[j]).id@ != id) ==> {
            &&& after.subtasks@[i].status is Exhausted
            &&& after.subtasks@[i].status.spec_reason() == d.spec_reason()
            &&& after.subtasks@[i].decided_at_secs == Some(now)
        },
{
    if d.exhausted() {
        let reason = choose|reason: String|
            reason@ == d.spec_reason()->0 && after.subtasks@ == #[trigger] before.after_resolve(
                id,
                SubTaskStatus::Exhausted { reason },
                now,
            );
        completeness::law_marks_go_to_the_named_subtask(
            before,
            id,
            SubTaskStatus::Exhausted { reason },
            now,
            i,
        );
    }
}

} // verus!
