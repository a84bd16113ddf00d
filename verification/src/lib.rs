//! Verified core of a browser-automation agent: task planning, completeness
//! gating, budgets, pacing, chat replies and the decisions of the agent loop.

pub mod text;
pub mod clock;
pub mod digest;
pub mod json;
pub mod sorted_map;

pub mod agent;
pub mod agent_loop;
pub mod budget;
pub mod captcha_solver;
pub mod captcha_telemetry;
pub mod chat;
pub mod chat_agent;
pub mod checklist_tools;
pub mod classify_cache;
pub mod completeness;
pub mod config;
pub mod dispatch;
pub mod end_of_task_passthrough;
pub mod eval;
pub mod handoff;
pub mod history;
pub mod loop_order;
pub mod model_reply;
pub mod nav;
pub mod orchestrator;
pub mod pacing;
pub mod page_tools;
pub mod planner;
pub mod planner_run;
pub mod research;
pub mod resilience;
pub mod router;
pub mod session;
pub mod summarizer;
pub mod telemetry_history;
pub mod todo;
pub mod tools;

pub use config::{AgentConfig, BrowserConfig, OpencodeZenConfig, ProviderConfig};
pub use planner::Plan;
pub use planner_run::Planner;
