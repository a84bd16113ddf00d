//! Scenarios of the planner and its workers.

pub mod planner_worker_shortcut;
