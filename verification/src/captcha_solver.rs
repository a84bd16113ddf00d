//! The opt-in hook for challenge-solving services.
//!
//! The default answer to a challenge page is to pause and ask the user. A service
//! is consulted only where the configuration switches it on for that kind of
//! challenge, and only so often per session. No service ships with the library:
//! the solver that is used says so.

use vstd::prelude::*;
use crate::resilience::{Challenge, ChallengeKind};
use crate::text;

verus! {

/// The settings of the challenge hook.
#[derive(Debug, Clone)]
pub struct CaptchaConfig {
    pub enabled: bool,
    /// The kinds that may be handed to a service.
    pub solve_kinds: Vec<ChallengeKind>,
    pub provider: Option<String>,
    /// The environment variable that holds the key of the provider.
    pub api_key_env: Option<String>,
    /// How many calls a session may make.
    pub per_session_cap: u32,
}

impl Default for CaptchaConfig {
    fn default() -> (r: Self)
        ensures
            !r.enabled,
            r.solve_kinds@ == Seq::<ChallengeKind>::empty(),
            r.provider is None,
            r.api_key_env is None,
            r.per_session_cap == 5,
    {
        CaptchaConfig {
            enabled: false,
            solve_kinds: Vec::new(),
            provider: None,
            api_key_env: None,
            per_session_cap: 5,
        }
    }
}

/// The names of the kinds.
pub open spec fn kind_names(kinds: Seq<ChallengeKind>) -> Seq<Seq<char>> {
    kinds.map_values(|k: ChallengeKind| k.spec_name())
}

impl CaptchaConfig {
    /// Whether a challenge is handed to the service.
    pub open spec fn solves(self, kind: ChallengeKind, calls: u32) -> bool {
        &&& self.enabled
        &&& calls < self.per_session_cap
        &&& self.solve_kinds@.contains(kind)
    }

    /// The settings in words, without any key.
    pub open spec fn summary_text(self) -> Seq<char> {
        if !self.enabled {
            "captcha solver: disabled (default — human handoff on challenge)"@
        } else {
            "captcha solver: enabled; provider="@ + (match self.provider {
                Some(p) => p@,
                None => "(unspecified provider)"@,
            }) + "; kinds=["@ + (if self.solve_kinds@.len() == 0 {
                "(no kinds — solver is configured but inert)"@
            } else {
                text::joined(kind_names(self.solve_kinds@), ", "@)
            }) + "]; per-session cap="@ + text::decimal(self.per_session_cap as nat)
        }
    }

    /// Whether a challenge of the given kind goes to the service: it is switched
    /// on, the kind is listed, and the session has calls left.
    pub fn should_solve(&self, kind: ChallengeKind, calls_this_session: u32) -> (r: bool)
        ensures
            r == self.solves(kind, calls_this_session),
    {
        if !self.enabled || calls_this_session >= self.per_session_cap {
            return false;
        }
        let mut i: usize = 0;
        while i < self.solve_kinds.len()
            invariant
                self.enabled,
                calls_this_session < self.per_session_cap,
                i <= self.solve_kinds@.len(),
                forall|j: int| 0 <= j < i ==> self.solve_kinds@[j] != kind,
            decreases self.solve_kinds@.len() - i,
        {
            if self.solve_kinds[i] == kind {
                return true;
            }
            i += 1;
        }
        false
    }

    /// Describes the settings.
    pub fn summary(&self) -> (r: String)
        ensures
            r@ == self.summary_text(),
    {
        if !self.enabled {
            return text::owned("captcha solver: disabled (default — human handoff on challenge)");
        }
        let mut out = text::owned("captcha solver: enabled; provider=");
        match &self.provider {
            Some(p) => out.append(p.as_str()),
            None => out.append("(unspecified provider)"),
        }
        out.append("; kinds=[");
        if self.solve_kinds.len() == 0 {
            out.append("(no kinds — solver is configured but inert)");
        } else {
            let mut names: Vec<String> = Vec::new();
            let mut i: usize = 0;
            while i < self.solve_kinds.len()
                invariant
                    i <= self.solve_kinds@.len(),
                    text::views(names@) == kind_names(self.solve_kinds@).take(i as int),
                decreases self.solve_kinds@.len() - i,
            {
                let ghost before = names@;
                names.push(text::owned(self.solve_kinds[i].as_str()));
                i += 1;
                assert(text::views(names@) == text::views(before).push(
                    self.solve_kinds@[i - 1].spec_name(),
                ));
                assert(kind_names(self.solve_kinds@).take(i as int) == kind_names(
                    self.solve_kinds@,
                ).take(i - 1).push(self.solve_kinds@[i - 1].spec_name()));
            }
            assert(kind_names(self.solve_kinds@).take(self.solve_kinds@.len() as int)
                == kind_names(self.solve_kinds@));
            out.append(text::join(&names, ", ").as_str());
        }
        out.append("]; per-session cap=");
        out.append(text::decimal_of(self.per_session_cap as u64).as_str());
        out
    }

    /// The solver to use: the one that supports nothing.
    pub fn default_solver(&self) -> (r: DisabledSolver)
        ensures
            r == DisabledSolver,
    {
        DisabledSolver
    }
}

/// What came of a solving attempt.
#[derive(Debug, PartialEq, Eq)]
pub enum SolveOutcome {
    Solved,
    /// The service tried and failed.
    Failed { reason: String },
    /// There is no service for this challenge.
    Unsupported,
}

impl SolveOutcome {
    pub open spec fn spec_text(self) -> Seq<char> {
        match self {
            SolveOutcome::Solved => "solved"@,
            SolveOutcome::Failed { reason } => "failed: "@ + reason@,
            SolveOutcome::Unsupported => "unsupported (no solver wired up)"@,
        }
    }

    /// The outcome as it stands in the transcript.
    pub fn text(&self) -> (r: String)
        ensures
            r@ == self.spec_text(),
    {
        match self {
            SolveOutcome::Solved => text::owned("solved"),
            SolveOutcome::Failed { reason } => {
                let mut out = text::owned("failed: ");
                out.append(reason.as_str());
                out
            },
            SolveOutcome::Unsupported => text::owned("unsupported (no solver wired up)"),
        }
    }
}

/// A challenge-solving service. Nothing is promised of what it answers.
pub trait CaptchaSolver {
    fn solve(&self, challenge: &Challenge) -> SolveOutcome;
}

/// The solver of a build without a service.
pub struct DisabledSolver;

impl CaptchaSolver for DisabledSolver {
    fn solve(&self, challenge: &Challenge) -> (r: SolveOutcome)
        ensures
            r is Unsupported,
    {
        SolveOutcome::Unsupported
    }
}

/// By default no challenge is ever handed to a service.
pub proof fn law_disabled_by_default(c: CaptchaConfig, kind: ChallengeKind, calls: u32)
    requires
        !c.enabled,
    ensures
        !c.solves(kind, calls),
{
}

/// Once the calls of a session are used up, none is made any more.
pub proof fn law_cap_is_final(c: CaptchaConfig, kind: ChallengeKind, calls: u32, later: u32)
    requires
        c.per_session_cap <= calls <= later,
    ensures
        !c.solves(kind, later),
{
}

/// A challenge is solved exactly where solving is on, the calls of the session are not
/// used up, and the kind is one of those to be solved.
pub proof fn law_only_listed_kinds_are_solved(c: CaptchaConfig, kind: ChallengeKind, calls: u32)
    ensures
        c.solves(kind, calls) <==> c.enabled && calls < c.per_session_cap && exists|i: int|
            0 <= i < c.solve_kinds@.len() && #[trigger] c.solve_kinds@[i] == kind,
{
}

/// The summary of a solver that is on names its provider, every kind that it solves and
/// its cap; that of one that is off says so.
pub proof fn law_summaries_name_the_settings(c: CaptchaConfig, i: int)
    ensures
        c.enabled ==> text::occurs(
            c.summary_text(),
            "]; per-session cap="@ + text::decimal(c.per_session_cap as nat),
        ),
        c.enabled && c.provider is Some ==> text::occurs(c.summary_text(), c.provider->0@),
        c.enabled && 0 <= i < c.solve_kinds@.len() ==> text::occurs(
            c.summary_text(),
            c.solve_kinds@[i].spec_name(),
        ),
        !c.enabled ==> text::occurs(c.summary_text(), "disabled"@),
{
    broadcast use text::group_occurs;

    let names = kind_names(c.solve_kinds@);
    if c.enabled && 0 <= i < c.solve_kinds@.len() {
        assert(names[i] == c.solve_kinds@[i].spec_name());
        text::law_joined_holds_each_part(names, ", "@, i);
        text::lemma_occurs_here(
            text::joined(names, ", "@),
            names[i],
            text::part_start(names, ", "@, i),
        );
        assert(text::occurs(c.summary_text(), text::joined(names, ", "@)));
        text::lemma_occurs_through(c.summary_text(), text::joined(names, ", "@), names[i]);
    }
    if !c.enabled {
        reveal_strlit("disabled");
        reveal_strlit("captcha solver: disabled (default — human handoff on challenge)");
        let w = "captcha solver: disabled (default — human handoff on challenge)"@;
        assert(w.subrange(16, 24) =~= "disabled"@);
        assert(text::occurs_at(w, "disabled"@, 16));
    }
}

/// What came of an attempt to solve a challenge is told apart, and a failure tells why.
pub proof fn law_outcomes_are_told(reason: String)
    ensures
        text::occurs((SolveOutcome::Failed { reason }).spec_text(), reason@),
        SolveOutcome::Solved.spec_text() == "solved"@,
        SolveOutcome::Solved.spec_text() != SolveOutcome::Unsupported.spec_text(),
        SolveOutcome::Solved.spec_text() != (SolveOutcome::Failed { reason }).spec_text(),
{
    broadcast use text::group_occurs;

    reveal_strlit("solved");
    reveal_strlit("failed: ");
    reveal_strlit("unsupported (no solver wired up)");
    assert(SolveOutcome::Solved.spec_text()[0] == 's');
    assert(SolveOutcome::Unsupported.spec_text()[0] == 'u');
    assert((SolveOutcome::Failed { reason }).spec_text()[0] == 'f');
}

} // verus!
