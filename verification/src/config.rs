//! The settings of the agent.

use vstd::prelude::*;
use crate::captcha_solver::CaptchaConfig;
use crate::pacing::PacingConfig;
use crate::research::ResearchSubTask;
use crate::resilience::ChallengeKind;
use crate::summarizer::{SummarizationConfig, Verbosity};

verus! {

/// The model provider.
#[derive(Debug, Clone)]
pub struct OpencodeZenConfig {
    pub base_url: String,
    pub api_key: String,
    pub default_model: String,
    pub max_iterations: usize,
    pub max_tokens: Option<usize>,
}

/// How many iterations a task may take where the settings do not say.
pub fn default_max_iterations() -> (r: usize)
    ensures
        r == 15,
{
    15
}

#[derive(Debug, Clone)]
pub struct BrowserConfig {
    pub binary_path: Option<String>,
    /// Whether a cursor is shown that moves to each click.
    pub visible_cursor: bool,
}

/// The settings of the research loop.
#[derive(Debug, Clone)]
pub struct ResearchConfig {
    pub enabled: bool,
    pub platforms: Vec<ResearchSubTask>,
    /// The file that lists the platforms, where one is named.
    pub platforms_file: Option<String>,
}

#[derive(Debug, Clone)]
pub struct AgentConfig {
    /// Named tasks.
    pub task_presets: Vec<(String, String)>,
    /// The domains that the browser may visit, or any where there is no list.
    pub allowed_domains: Option<Vec<String>>,
    pub pacing: PacingConfig,
    pub summarization: SummarizationConfig,
    pub research: ResearchConfig,
    pub captcha: CaptchaConfig,
    /// Whether tasks go through the planner and its workers.
    pub planner_enabled: bool,
}

impl AgentConfig {
    /// The settings of an agent for which nothing is set.
    pub open spec fn is_default(self) -> bool {
        &&& self.task_presets@ == Seq::<(String, String)>::empty()
        &&& self.allowed_domains is None
        &&& self.pacing == (PacingConfig {
            enabled: false,
            min_delay_ms: 800,
            max_delay_ms: 2500,
            streak_threshold: 2,
        })
        &&& self.summarization == (SummarizationConfig {
            verbosity: Verbosity::Concise,
            live_lines_cap: 5,
            end_of_task_llm_summary: true,
        })
        &&& !self.research.enabled
        &&& self.research.platforms@ == Seq::<ResearchSubTask>::empty()
        &&& self.research.platforms_file is None
        &&& !self.captcha.enabled
        &&& self.captcha.solve_kinds@ == Seq::<ChallengeKind>::empty()
        &&& self.captcha.provider is None
        &&& self.captcha.api_key_env is None
        &&& self.captcha.per_session_cap == 5
        &&& !self.planner_enabled
    }
}

impl Default for AgentConfig {
    fn default() -> (r: Self)
        ensures
            r.is_default(),
    {
        AgentConfig {
            task_presets: Vec::new(),
            allowed_domains: None,
            pacing: PacingConfig::default(),
            summarization: SummarizationConfig::default(),
            research: ResearchConfig { enabled: false, platforms: Vec::new(), platforms_file: None },
            captcha: CaptchaConfig::default(),
            planner_enabled: false,
        }
    }
}

#[derive(Debug, Clone)]
pub struct ProviderConfig {
    pub opencode_zen: OpencodeZenConfig,
    pub browser: Option<BrowserConfig>,
    pub agent: AgentConfig,
}

} // verus!
