//! What page inspection reports: challenges, interruptions and recoveries.

use vstd::prelude::*;
use crate::text;

verus! {

/// The challenge pages that are told apart.
#[derive(Debug, Clone, Copy, PartialEq, Eq, Hash, Structural)]
pub enum ChallengeKind {
    CloudflareTurnstile,
    RecaptchaV2,
    RecaptchaV3,
    Hcaptcha,
}

impl ChallengeKind {
    pub open spec fn spec_name(self) -> Seq<char> {
        match self {
            ChallengeKind::CloudflareTurnstile => "cloudflare_turnstile"@,
            ChallengeKind::RecaptchaV2 => "recaptcha_v2"@,
            ChallengeKind::RecaptchaV3 => "recaptcha_v3"@,
            ChallengeKind::Hcaptcha => "hcaptcha"@,
        }
    }

    pub fn as_str(&self) -> (r: &'static str)
        ensures
            r@ == self.spec_name(),
    {
        match self {
            ChallengeKind::CloudflareTurnstile => "cloudflare_turnstile",
            ChallengeKind::RecaptchaV2 => "recaptcha_v2",
            ChallengeKind::RecaptchaV3 => "recaptcha_v3",
            ChallengeKind::Hcaptcha => "hcaptcha",
        }
    }
}

/// A challenge that was found on a page.
#[derive(Debug, PartialEq, Eq)]
pub struct Challenge {
    pub kind: ChallengeKind,
    /// The host that serves the challenge, where it is known.
    pub domain_hint: Option<String>,
    pub label: String,
}

impl Clone for Challenge {
    fn clone(&self) -> (r: Self)
        ensures
            r == *self,
    {
        Challenge {
            kind: self.kind,
            domain_hint: text::opt_owned(&self.domain_hint),
            label: self.label.clone(),
        }
    }
}

/// What the inspection of a page, or of a tool call, asks the loop to do.
#[derive(Debug, PartialEq, Eq)]
pub enum ResilienceHookOutcome {
    /// Go on.
    Continue,
    /// A dialog covers the page; click this element to close it.
    AutoDismiss { dismiss_ref: String },
    /// The site throttles; wait.
    Backoff { secs: u64 },
    /// Tell the model what was found.
    SurfaceAsFinding { summary: String, kind: String },
    /// The next action cannot be undone; ask the user.
    PauseForUser { target: String, action_kind: String },
    /// Look at the page anew.
    ForceSnapshot,
    /// The page is a challenge; only the user can go on.
    PauseForCaptcha { challenge: Challenge },
}

/// What became of an element that is no longer on the page.
#[derive(Debug, PartialEq, Eq)]
pub enum RefRecoveryOutcome {
    /// Another element stands for it.
    Retry { new_ref: String, attempts_so_far: u32 },
    /// The model has to decide.
    EscalateToLLM { reason: String, attempts_so_far: u32 },
    /// The action is given up.
    AbortWithReason { reason: String, attempts_so_far: u32 },
}

impl RefRecoveryOutcome {
    pub open spec fn spec_attempts(self) -> u32 {
        match self {
            RefRecoveryOutcome::Retry { attempts_so_far, .. } => attempts_so_far,
            RefRecoveryOutcome::EscalateToLLM { attempts_so_far, .. } => attempts_so_far,
            RefRecoveryOutcome::AbortWithReason { attempts_so_far, .. } => attempts_so_far,
        }
    }

    pub fn attempts(&self) -> (r: u32)
        ensures
            r == self.spec_attempts(),
    {
        match self {
            RefRecoveryOutcome::Retry { attempts_so_far, .. } => *attempts_so_far,
            RefRecoveryOutcome::EscalateToLLM { attempts_so_far, .. } => *attempts_so_far,
            RefRecoveryOutcome::AbortWithReason { attempts_so_far, .. } => *attempts_so_far,
        }
    }
}

// ---------------------------------------------------------------------------
// Laws
// ---------------------------------------------------------------------------

/// The kinds of challenges have names of their own, under which they are counted and
/// configured.
pub proof fn law_challenges_have_names_of_their_own(a: ChallengeKind, b: ChallengeKind)
    ensures
        a.spec_name() == b.spec_name() <==> a == b,
        ChallengeKind::CloudflareTurnstile.spec_name() == "cloudflare_turnstile"@,
        ChallengeKind::RecaptchaV2.spec_name() == "recaptcha_v2"@,
        ChallengeKind::RecaptchaV3.spec_name() == "recaptcha_v3"@,
        ChallengeKind::Hcaptcha.spec_name() == "hcaptcha"@,
{
    reveal_strlit("cloudflare_turnstile");
    reveal_strlit("recaptcha_v2");
    reveal_strlit("recaptcha_v3");
    reveal_strlit("hcaptcha");
    let x = a.spec_name();
    let y = b.spec_name();
    if x == y {
        assert(x.len() == y.len());
        assert(x[0] == y[0]);
        assert(x.last() == y.last());
    }
}

} // verus!
