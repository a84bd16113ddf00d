//! The evaluation harness: fixed scenarios, the contract of a handoff, and the
//! report of a run.

pub mod assertions;
pub mod harness;
pub mod report;
pub mod runner;
pub mod scenarios;

pub use harness::{Scenario, ScenarioOutcome};
pub use report::{EvalReport, RunMetrics};
pub use runner::{run_scenario, run_scenarios};
