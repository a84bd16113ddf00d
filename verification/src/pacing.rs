//! Pacing of repeated actions.
//!
//! Bursts of one action trip the defences of some platforms. The guard counts
//! consecutive actions of one type and asks for a random delay once the count
//! reaches a threshold. An action that differs from the one before it, and a tool
//! that is not paced at all, break the streak; one-off actions never wait.

use vstd::prelude::*;
use rand::Rng;
use std::time::Duration;
use crate::clock;
use crate::text;

verus! {

/// The actions that are paced.
#[derive(Debug, Clone, Copy, PartialEq, Eq, Hash, Structural)]
pub enum PacedAction {
    Click,
    Type,
    Scroll,
    PressKey,
    Navigate,
}

impl PacedAction {
    pub open spec fn spec_name(self) -> Seq<char> {
        match self {
            PacedAction::Click => "click"@,
            PacedAction::Type => "type"@,
            PacedAction::Scroll => "scroll"@,
            PacedAction::PressKey => "press_key"@,
            PacedAction::Navigate => "navigate"@,
        }
    }

    /// The paced action behind a tool name.
    pub open spec fn named(name: Seq<char>) -> Option<PacedAction> {
        if name == "click"@ {
            Some(PacedAction::Click)
        } else if name == "type"@ {
            Some(PacedAction::Type)
        } else if name == "scroll"@ {
            Some(PacedAction::Scroll)
        } else if name == "press_key"@ {
            Some(PacedAction::PressKey)
        } else if name == "navigate"@ {
            Some(PacedAction::Navigate)
        } else {
            None
        }
    }

    /// The paced action behind a tool name, `None` for every other tool.
    pub fn from_tool_name(name: &str) -> (r: Option<Self>)
        ensures
            r == PacedAction::named(name@),
    {
        if text::same(name, "click") {
            Some(PacedAction::Click)
        } else if text::same(name, "type") {
            Some(PacedAction::Type)
        } else if text::same(name, "scroll") {
            Some(PacedAction::Scroll)
        } else if text::same(name, "press_key") {
            Some(PacedAction::PressKey)
        } else if text::same(name, "navigate") {
            Some(PacedAction::Navigate)
        } else {
            None
        }
    }

    pub fn as_str(self) -> (r: &'static str)
        ensures
            r@ == self.spec_name(),
    {
        match self {
            PacedAction::Click => "click",
            PacedAction::Type => "type",
            PacedAction::Scroll => "scroll",
            PacedAction::PressKey => "press_key",
            PacedAction::Navigate => "navigate",
        }
    }
}

/// A tool name and its paced action name each other.
pub proof fn law_names_match(a: PacedAction, name: Seq<char>)
    ensures
        PacedAction::named(name) == Some(a) <==> name == a.spec_name(),
{
    reveal_strlit("click");
    reveal_strlit("type");
    reveal_strlit("scroll");
    reveal_strlit("press_key");
    reveal_strlit("navigate");
    assert("click"@[0] == 'c' && "type"@[0] == 't' && "scroll"@[0] == 's' && "press_key"@[0] == 'p'
        && "navigate"@[0] == 'n');
}

/// The settings of the guard.
#[derive(Debug, Clone, Copy, PartialEq, Eq, Structural)]
pub struct PacingConfig {
    pub enabled: bool,
    /// The shortest delay.
    pub min_delay_ms: u64,
    /// The longest delay; one below the shortest counts as equal to it.
    pub max_delay_ms: u64,
    /// How many consecutive actions of one type it takes before the guard paces.
    /// The first action of a streak never waits.
    pub streak_threshold: u32,
}

impl Default for PacingConfig {
    fn default() -> (r: Self)
        ensures
            r == (PacingConfig {
                enabled: false,
                min_delay_ms: 800,
                max_delay_ms: 2500,
                streak_threshold: 2,
            }),
    {
        PacingConfig { enabled: false, min_delay_ms: 800, max_delay_ms: 2500, streak_threshold: 2 }
    }
}

impl PacingConfig {
    /// How far the delay can lie above the shortest one.
    pub open spec fn spread(self) -> u64 {
        if self.max_delay_ms > self.min_delay_ms {
            (self.max_delay_ms - self.min_delay_ms) as u64
        } else {
            0
        }
    }
}

/// What the caller has to do before it fires an action.
#[derive(Debug, Clone, Copy, PartialEq, Eq)]
pub enum PacingDecision {
    /// Fire at once.
    NoPacing,
    /// Wait for `delay` first.
    Pace { delay: Duration, streak: u32 },
}

/// The current run of one action.
#[derive(Debug, Clone, Copy, PartialEq, Eq, Structural)]
pub struct Streak {
    pub action: PacedAction,
    pub count: u32,
}

/// The pacing guard of one agent.
#[derive(Debug, Clone, Copy)]
pub struct PacingGuard {
    pub config: PacingConfig,
    pub streak: Option<Streak>,
}

/// `rand::Rng::gen_range` over `0..=range`, on the generator of the current
/// thread (`rand::thread_rng`): some value of that range, chosen at random.
#[verifier::external_body]
fn random_up_to(range: u64) -> (r: u64)
    ensures
        r <= range,
{
    rand::thread_rng().gen_range(0..=range)
}

impl PacingGuard {
    /// The streak after the named tool is called.
    pub open spec fn next_streak(self, name: Seq<char>) -> Option<Streak> {
        if !self.config.enabled {
            self.streak
        } else {
            match PacedAction::named(name) {
                None => None,
                Some(action) => match self.streak {
                    Some(s) => if s.action == action {
                        Some(Streak { action, count: (s.count + 1) as u32 })
                    } else {
                        Some(Streak { action, count: 1 })
                    },
                    None => Some(Streak { action, count: 1 }),
                },
            }
        }
    }

    /// Whether a call of the named tool has to wait: it repeats the action before
    /// it, and the streak has reached the threshold.
    pub open spec fn due(self, name: Seq<char>) -> bool {
        &&& self.config.enabled
        &&& self.next_streak(name) is Some
        &&& self.next_streak(name)->0.count >= 2
        &&& self.next_streak(name)->0.count >= self.config.streak_threshold
    }

    /// Whether `d` is the decision for the named tool at the given jitter.
    pub open spec fn decides(self, name: Seq<char>, jitter: u64, d: PacingDecision) -> bool {
        if self.due(name) {
            &&& d is Pace
            &&& clock::duration_nanos(d->delay) == (self.config.min_delay_ms + jitter) * 1_000_000
            &&& d->streak == self.next_streak(name)->0.count
        } else {
            d is NoPacing
        }
    }

    /// The length of the current streak, `0` where there is none.
    pub open spec fn spec_count(self) -> u32 {
        match self.streak {
            Some(s) => s.count,
            None => 0,
        }
    }

    /// Whether one more action can be counted.
    pub open spec fn can_count(self) -> bool {
        self.streak is Some ==> self.streak->0.count < u32::MAX
    }

    pub fn new(config: PacingConfig) -> (r: Self)
        ensures
            r.config == config,
            r.streak is None,
    {
        PacingGuard { config, streak: None }
    }

    /// A guard that never paces.
    pub fn disabled() -> (r: Self)
        ensures
            !r.config.enabled,
            r.config.min_delay_ms == 800,
            r.config.max_delay_ms == 2500,
            r.config.streak_threshold == 2,
            r.streak is None,
    {
        let config = PacingConfig::default();
        PacingGuard::new(config)
    }

    pub fn enabled(&self) -> (r: bool)
        ensures
            r == self.config.enabled,
    {
        self.config.enabled
    }

    /// The action of the current streak.
    pub fn current_streak_action(&self) -> (r: Option<PacedAction>)
        ensures
            match self.streak {
                Some(s) => r == Some(s.action),
                None => r is None,
            },
    {
        match self.streak {
            Some(s) => Some(s.action),
            None => None,
        }
    }

    /// The length of the current streak, `0` where there is none.
    pub fn current_streak_count(&self) -> (r: u32)
        ensures
            r == self.spec_count(),
    {
        match self.streak {
            Some(s) => s.count,
            None => 0,
        }
    }

    /// Counts a call of the named tool, and tells the length of the streak where
    /// the call has to wait.
    fn count_action(&mut self, name: &str) -> (r: Option<u32>)
        requires
            old(self).can_count(),
        ensures
            final(self).config == old(self).config,
            final(self).streak == old(self).next_streak(name@),
            match r {
                Some(n) => old(self).due(name@) && n == old(self).next_streak(name@)->0.count,
                None => !old(self).due(name@),
            },
    {
        if !self.config.enabled {
            return None;
        }
        let action = match PacedAction::from_tool_name(name) {
            Some(a) => a,
            None => {
                self.streak = None;
                return None;
            },
        };
        match self.streak {
            Some(s) => {
                if s.action == action {
                    let count: u32 = s.count + 1;
                    self.streak = Some(Streak { action, count });
                    if count < 2 || count < self.config.streak_threshold {
                        None
                    } else {
                        Some(count)
                    }
                } else {
                    self.streak = Some(Streak { action, count: 1 });
                    None
                }
            },
            None => {
                self.streak = Some(Streak { action, count: 1 });
                None
            },
        }
    }

    /// Decides about the next action, with the random part of the delay given.
    pub fn before_action_with(&mut self, name: &str, jitter: u64) -> (r: PacingDecision)
        requires
            old(self).can_count(),
            jitter <= old(self).config.spread(),
        ensures
            final(self).config == old(self).config,
            final(self).streak == old(self).next_streak(name@),
            old(self).decides(name@, jitter, r),
    {
        match self.count_action(name) {
            None => PacingDecision::NoPacing,
            Some(streak) => {
                let picked: u64 = self.config.min_delay_ms + jitter;
                PacingDecision::Pace { delay: Duration::from_millis(picked), streak }
            },
        }
    }

    /// Decides about the next action. Where it has to wait, the delay lies at
    /// random between the shortest and the longest one.
    pub fn before_action(&mut self, name: &str) -> (r: PacingDecision)
        requires
            old(self).can_count(),
        ensures
            final(self).config == old(self).config,
            final(self).streak == old(self).next_streak(name@),
            exists|jitter: u64|
                jitter <= old(self).config.spread() && #[trigger] old(self).decides(
                    name@,
                    jitter,
                    r,
                ),
    {
        let min: u64 = self.config.min_delay_ms;
        let max: u64 = self.config.max_delay_ms;
        let spread: u64 = if max > min {
            max - min
        } else {
            0
        };
        let jitter: u64 = if spread == 0 {
            0
        } else {
            random_up_to(spread)
        };
        self.before_action_with(name, jitter)
    }

    /// Forgets the streak.
    pub fn reset(&mut self)
        ensures
            final(self).config == old(self).config,
            final(self).streak is None,
    {
        self.streak = None;
    }
}

// ---------------------------------------------------------------------------
// Transcript
// ---------------------------------------------------------------------------

/// The transcript line of a decision; a decision not to wait has none.
pub open spec fn pacing_line(
    ts: u64,
    session: Seq<char>,
    action: PacedAction,
    d: PacingDecision,
) -> Option<Seq<char>> {
    match d {
        PacingDecision::NoPacing => None,
        PacingDecision::Pace { delay, streak } => Some(
            "["@ + text::decimal(ts as nat) + "] ["@ + session + "] PACING: action="@
                + action.spec_name() + " streak="@ + text::decimal(streak as nat) + " delay_ms="@
                + text::decimal(clock::duration_nanos(delay) / 1_000_000) + "\n\n"@,
        ),
    }
}

/// Renders the transcript line of a decision for the given time.
pub fn log_pacing_decision_at(
    ts: u64,
    session_id: &str,
    action: PacedAction,
    decision: &PacingDecision,
) -> (r: Option<String>)
    ensures
        match r {
            Some(t) => pacing_line(ts, session_id@, action, *decision) == Some(t@),
            None => pacing_line(ts, session_id@, action, *decision) is None,
        },
{
    match decision {
        PacingDecision::NoPacing => None,
        PacingDecision::Pace { delay, streak } => {
            let mut out = text::owned("[");
            out.append(text::decimal_of(ts).as_str());
            out.append("] [");
            out.append(session_id);
            out.append("] PACING: action=");
            out.append(action.as_str());
            out.append(" streak=");
            out.append(text::decimal_of(*streak as u64).as_str());
            out.append(" delay_ms=");
            out.append(text::decimal_of_long(delay.as_millis()).as_str());
            out.append("\n\n");
            Some(out)
        },
    }
}

/// Renders the transcript line of a decision, stamped with the present second.
pub fn log_pacing_decision(
    session_id: &str,
    action: PacedAction,
    decision: &PacingDecision,
) -> (r: Option<String>)
    ensures
        r is Some <==> *decision is Pace,
        r matches Some(t) ==> exists|ts: u64|
            #[trigger] pacing_line(ts, session_id@, action, *decision) == Some(t@),
{
    let ts: u64 = clock::now_secs();
    log_pacing_decision_at(ts, session_id, action, decision)
}

// ---------------------------------------------------------------------------
// Laws
// ---------------------------------------------------------------------------

/// A guard that is switched off never paces and keeps its streak.
pub proof fn law_disabled_never_paces(
    g: PacingGuard,
    name: Seq<char>,
    jitter: u64,
    d: PacingDecision,
)
    requires
        !g.config.enabled,
        g.decides(name, jitter, d),
    ensures
        d is NoPacing,
        g.next_streak(name) == g.streak,
{
}

/// An action never waits unless the action right before it was the same one.
pub proof fn law_one_off_actions_never_wait(g: PacingGuard, name: Seq<char>)
    requires
        g.streak is None || PacedAction::named(name) != Some(g.streak->0.action),
    ensures
        !g.due(name),
{
}

/// A tool that is not paced never waits and breaks the streak of an active guard.
pub proof fn law_other_tools_break_the_streak(g: PacingGuard, name: Seq<char>)
    requires
        g.config.enabled,
        PacedAction::named(name) is None,
    ensures
        !g.due(name),
        g.next_streak(name) is None,
{
}

/// The delay lies between the shortest and the longest one.
pub proof fn law_delay_is_in_range(g: PacingGuard, name: Seq<char>, jitter: u64, d: PacingDecision)
    requires
        jitter <= g.config.spread(),
        g.decides(name, jitter, d),
        d is Pace,
    ensures
        clock::duration_nanos(d->delay) >= g.config.min_delay_ms * 1_000_000,
        clock::duration_nanos(d->delay) <= if g.config.max_delay_ms > g.config.min_delay_ms {
            g.config.max_delay_ms * 1_000_000
        } else {
            g.config.min_delay_ms * 1_000_000
        },
{
}

/// The streak after `n` further calls of one action.
pub open spec fn streak_after(g: PacingGuard, name: Seq<char>, n: nat) -> PacingGuard
    decreases n,
{
    if n == 0 {
        g
    } else {
        let before = streak_after(g, name, (n - 1) as nat);
        PacingGuard { streak: before.next_streak(name), ..before }
    }
}

/// Calling one paced action over and over, from no streak, the `n`-th call waits
/// exactly when it is at least the second and at least the threshold.
pub proof fn law_repeats_wait_from_the_threshold(g: PacingGuard, name: Seq<char>, n: nat)
    requires
        g.config.enabled,
        g.streak is None,
        PacedAction::named(name) is Some,
        1 <= n <= u32::MAX,
    ensures
        streak_after(g, name, (n - 1) as nat).due(name) <==> n >= 2 && n
            >= g.config.streak_threshold,
{
    lemma_streak_after(g, name, (n - 1) as nat);
}

proof fn lemma_streak_after(g: PacingGuard, name: Seq<char>, n: nat)
    requires
        g.config.enabled,
        g.streak is None,
        PacedAction::named(name) is Some,
        n <= u32::MAX,
    ensures
        streak_after(g, name, n).config == g.config,
        n == 0 ==> streak_after(g, name, n).streak is None,
        n > 0 ==> streak_after(g, name, n).streak == Some(
            Streak { action: PacedAction::named(name)->0, count: n as u32 },
        ),
    decreases n,
{
    if n > 0 {
        lemma_streak_after(g, name, (n - 1) as nat);
    }
}

/// A call that changes the streak.
pub ghost enum PacingCall {
    Action { name: Seq<char> },
    Reset,
}

/// The guard after a sequence of calls.
pub open spec fn after_calls(g: PacingGuard, calls: Seq<PacingCall>) -> PacingGuard
    decreases calls.len(),
{
    if calls.len() == 0 {
        g
    } else {
        let before = after_calls(g, calls.drop_last());
        match calls.last() {
            PacingCall::Action { name } => PacingGuard {
                streak: before.next_streak(name),
                ..before
            },
            PacingCall::Reset => PacingGuard { streak: None, ..before },
        }
    }
}

/// Whether the guard could take each of a sequence of calls when it came.
pub open spec fn takes_calls(g: PacingGuard, calls: Seq<PacingCall>) -> bool {
    forall|i: int|
        0 <= i < calls.len() && (#[trigger] calls[i]) is Action ==> after_calls(
            g,
            calls.take(i),
        ).can_count()
}

/// The length of the run of one paced action that ends a sequence of calls.
pub open spec fn run_at_end(calls: Seq<PacingCall>) -> nat
    decreases calls.len(),
{
    if calls.len() == 0 {
        0
    } else {
        match calls.last() {
            PacingCall::Action { name } => if PacedAction::named(name) is None {
                0
            } else if calls.len() > 1 && calls[calls.len() - 2] == calls.last() {
                1 + run_at_end(calls.drop_last())
            } else {
                1
            },
            PacingCall::Reset => 0,
        }
    }
}

/// Whatever was called, the streak of an active guard is the run of one paced
/// action that the calls end with; a guard that is switched off has none, and lets
/// every action through.
pub proof fn law_streak_is_the_run_at_the_end(g: PacingGuard, calls: Seq<PacingCall>)
    requires
        g.streak is None,
        takes_calls(g, calls),
    ensures
        after_calls(g, calls).config == g.config,
        g.config.enabled ==> after_calls(g, calls).spec_count() == run_at_end(calls),
        !g.config.enabled ==> {
            &&& after_calls(g, calls).spec_count() == 0
            &&& forall|name: Seq<char>| !(#[trigger] after_calls(g, calls).due(name))
        },
{
    lemma_run(g, calls);
}

proof fn lemma_run(g: PacingGuard, calls: Seq<PacingCall>)
    requires
        g.streak is None,
        takes_calls(g, calls),
    ensures
        after_calls(g, calls).config == g.config,
        run_at_end(calls) <= u32::MAX || !g.config.enabled,
        !g.config.enabled ==> after_calls(g, calls).streak is None,
        g.config.enabled ==> after_calls(g, calls).streak == (if run_at_end(calls) == 0 {
            None
        } else {
            Some(
                Streak {
                    action: PacedAction::named(calls.last()->name)->0,
                    count: run_at_end(calls) as u32,
                },
            )
        }),
        run_at_end(calls) > 0 ==> calls.last() is Action && PacedAction::named(
            calls.last()->name,
        ) is Some,
    decreases calls.len(),
{
    if calls.len() > 0 {
        let head = calls.drop_last();
        assert(calls.take(calls.len() - 1) == head);
        assert(calls[calls.len() - 1] == calls.last());
        assert(takes_calls(g, head)) by {
            assert forall|i: int| 0 <= i < head.len() && (#[trigger] head[i]) is Action implies
                after_calls(g, head.take(i)).can_count() by {
                assert(head[i] == calls[i]);
                assert(head.take(i) == calls.take(i));
            }
        }
        lemma_run(g, head);
        if head.len() > 0 {
            assert(head.last() == calls[calls.len() - 2]);
            match (head.last(), calls.last()) {
                (PacingCall::Action { name: a }, PacingCall::Action { name: b }) => {
                    if PacedAction::named(b) is Some {
                        law_names_match(PacedAction::named(b)->0, a);
                        law_names_match(PacedAction::named(b)->0, b);
                    }
                },
                _ => {},
            }
        }
    }
}

/// The five actions that are paced bear the names of their tools.
pub proof fn law_paced_actions_bear_the_names_of_their_tools()
    ensures
        PacedAction::Click.spec_name() == "click"@,
        PacedAction::Type.spec_name() == "type"@,
        PacedAction::Scroll.spec_name() == "scroll"@,
        PacedAction::PressKey.spec_name() == "press_key"@,
        PacedAction::Navigate.spec_name() == "navigate"@,
{
}

/// Of two waits for one action the one with more jitter is longer, by as much, and both
/// tell the same streak.
pub proof fn law_jitter_lengthens_the_wait(
    g: PacingGuard,
    name: Seq<char>,
    x: u64,
    y: u64,
    a: PacingDecision,
    b: PacingDecision,
)
    requires
        g.decides(name, x, a),
        g.decides(name, y, b),
        a is Pace,
    ensures
        b is Pace,
        clock::duration_nanos(b->delay) - clock::duration_nanos(a->delay) == (y - x) * 1_000_000,
        a->streak == b->streak,
        a->streak >= 2,
        x == 0 ==> clock::duration_nanos(a->delay) == g.config.min_delay_ms * 1_000_000,
{
}

/// A wait is logged with its action, its streak and its length in milliseconds, and an
/// action that does not wait is not logged.
pub proof fn law_waits_are_logged(
    ts: u64,
    session: Seq<char>,
    action: PacedAction,
    d: PacingDecision,
)
    ensures
        pacing_line(ts, session, action, d) is Some <==> d is Pace,
        d matches PacingDecision::Pace { delay, streak } ==> {
            let line = pacing_line(ts, session, action, d)->0;
            &&& text::occurs(line, text::decimal(ts as nat))
            &&& text::occurs(line, session)
            &&& text::occurs(line, "] PACING: action="@ + action.spec_name())
            &&& text::occurs(line, " streak="@ + text::decimal(streak as nat))
            &&& text::occurs(
                line,
                " delay_ms="@ + text::decimal(clock::duration_nanos(delay) / 1_000_000),
            )
        },
{
    broadcast use text::group_occurs;

}

} // verus!
