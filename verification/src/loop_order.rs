//! The order of the steps in the agent loop.
//!
//! The driver of the loop carries out one stage after the other. What comes next
//! depends on the stage and on how it went; it is decided here.

use vstd::prelude::*;

verus! {

/// A stage of the loop.
#[derive(Debug, Clone, Copy, PartialEq, Eq, Structural)]
pub enum Stage {
    /// Plan the task.
    Plan,
    /// Wait until the session may go on.
    Checkpoint,
    /// Start an iteration within the limits.
    Limits,
    /// Note the address of the page and fold in the notes of the user.
    Locate,
    /// Read the page and record what the model is shown.
    Observe,
    /// Act on what page inspection reports.
    Inspect,
    /// Show the page to the model and ask for the next call.
    Ask,
    /// Read the reply of the model.
    Reply,
    /// Wait until the session may go on with the call.
    Recheck,
    /// Choose the call to carry out, and see whether it can be undone.
    Judge,
    /// Pause the session for a call that cannot be undone.
    Hold,
    /// Wait before the call.
    Pace,
    /// Carry the call out.
    Carry,
    /// Answer and record the call.
    Record,
    /// The task has a result.
    Finished,
    /// The loop has stopped with an error.
    Stopped,
}

/// How a stage went.
#[derive(Debug, Clone, Copy, PartialEq, Eq, Structural)]
pub enum Signal {
    /// It went through.
    Done,
    /// It ended with an error that stops the loop.
    Failed,
    /// The reply of the model held no call.
    NoCall,
    /// The call cannot be undone.
    Irreversible,
    /// A `finish()` was accepted.
    Accepted,
}

/// The stage after `stage`. Only some stages can fail; elsewhere an error is part of
/// the answer to the model, and the loop goes on.
pub open spec fn stage_after(stage: Stage, signal: Signal) -> Stage {
    match (stage, signal) {
        (Stage::Finished, _) => Stage::Finished,
        (Stage::Stopped, _) => Stage::Stopped,
        (_, Signal::Failed) => Stage::Stopped,
        (Stage::Plan, _) => Stage::Checkpoint,
        (Stage::Checkpoint, _) => Stage::Limits,
        (Stage::Limits, _) => Stage::Locate,
        (Stage::Locate, _) => Stage::Observe,
        (Stage::Observe, _) => Stage::Inspect,
        (Stage::Inspect, _) => Stage::Ask,
        (Stage::Ask, _) => Stage::Reply,
        (Stage::Reply, Signal::NoCall) => Stage::Checkpoint,
        (Stage::Reply, _) => Stage::Recheck,
        (Stage::Recheck, _) => Stage::Judge,
        (Stage::Judge, Signal::Irreversible) => Stage::Hold,
        (Stage::Judge, _) => Stage::Pace,
        (Stage::Hold, _) => Stage::Checkpoint,
        (Stage::Pace, _) => Stage::Carry,
        (Stage::Carry, _) => Stage::Record,
        (Stage::Record, Signal::Accepted) => Stage::Finished,
        (Stage::Record, _) => Stage::Checkpoint,
    }
}

/// The stage after `stage`.
pub fn next_stage(stage: Stage, signal: Signal) -> (r: Stage)
    ensures
        r == stage_after(stage, signal),
{
    match (stage, signal) {
        (Stage::Finished, _) => Stage::Finished,
        (Stage::Stopped, _) => Stage::Stopped,
        (_, Signal::Failed) => Stage::Stopped,
        (Stage::Plan, _) => Stage::Checkpoint,
        (Stage::Checkpoint, _) => Stage::Limits,
        (Stage::Limits, _) => Stage::Locate,
        (Stage::Locate, _) => Stage::Observe,
        (Stage::Observe, _) => Stage::Inspect,
        (Stage::Inspect, _) => Stage::Ask,
        (Stage::Ask, _) => Stage::Reply,
        (Stage::Reply, Signal::NoCall) => Stage::Checkpoint,
        (Stage::Reply, _) => Stage::Recheck,
        (Stage::Recheck, _) => Stage::Judge,
        (Stage::Judge, Signal::Irreversible) => Stage::Hold,
        (Stage::Judge, _) => Stage::Pace,
        (Stage::Hold, _) => Stage::Checkpoint,
        (Stage::Pace, _) => Stage::Carry,
        (Stage::Carry, _) => Stage::Record,
        (Stage::Record, Signal::Accepted) => Stage::Finished,
        (Stage::Record, _) => Stage::Checkpoint,
    }
}

/// The stage after a run of signals.
pub open spec fn stage_after_all(stage: Stage, signals: Seq<Signal>) -> Stage
    decreases signals.len(),
{
    if signals.len() == 0 {
        stage
    } else {
        stage_after(stage_after_all(stage, signals.drop_last()), signals.last())
    }
}

// ---------------------------------------------------------------------------
// Laws
// ---------------------------------------------------------------------------

/// The loop gives a result only where a recorded `finish()` was accepted, and it
/// ends in no other way than with a result or an error.
pub proof fn law_only_accepted_results_end_the_loop(stage: Stage, signal: Signal)
    requires
        stage !is Finished,
        stage !is Stopped,
    ensures
        stage_after(stage, signal) is Finished <==> stage is Record && signal is Accepted,
        stage_after(stage, signal) is Stopped <==> signal is Failed,
{
}

/// A loop that has ended does not start again.
pub proof fn law_the_end_is_final(stage: Stage, signals: Seq<Signal>)
    requires
        stage is Finished || stage is Stopped,
    ensures
        stage_after_all(stage, signals) == stage,
    decreases signals.len(),
{
    if signals.len() > 0 {
        law_the_end_is_final(stage, signals.drop_last());
    }
}

/// No call is carried out that was not judged and paced first, and the model is
/// asked only after the page was read and inspected.
pub proof fn law_calls_are_judged_first(stage: Stage, signal: Signal)
    ensures
        stage_after(stage, signal) is Carry ==> stage is Pace,
        stage_after(stage, signal) is Pace ==> stage is Judge && signal !is Irreversible,
        stage_after(stage, signal) is Judge ==> stage is Recheck,
        stage_after(stage, signal) is Recheck ==> stage is Reply && signal !is NoCall,
        stage_after(stage, signal) is Reply ==> stage is Ask,
        stage_after(stage, signal) is Ask ==> stage is Inspect,
        stage_after(stage, signal) is Inspect ==> stage is Observe,
        stage_after(stage, signal) is Observe ==> stage is Locate,
        stage_after(stage, signal) is Locate ==> stage is Limits,
{
}

/// A call that cannot be undone is not carried out: the session is paused for it,
/// and the loop goes on only past the checkpoint, where it waits for the user.
pub proof fn law_held_calls_wait_at_the_checkpoint(signal: Signal)
    ensures
        stage_after(Stage::Judge, Signal::Irreversible) is Hold,
        signal !is Failed ==> stage_after(Stage::Hold, signal) is Checkpoint,
        stage_after(Stage::Hold, signal) !is Carry,
{
}

/// A step that does not fail goes through its stages one after the other, from the
/// checkpoint to the record, and from there to the next checkpoint.
pub proof fn law_a_step_passes_every_stage(signal: Signal)
    requires
        signal !is Failed,
    ensures
        stage_after(Stage::Plan, signal) is Checkpoint,
        stage_after(Stage::Checkpoint, signal) is Limits,
        stage_after(Stage::Limits, signal) is Locate,
        stage_after(Stage::Locate, signal) is Observe,
        stage_after(Stage::Observe, signal) is Inspect,
        stage_after(Stage::Inspect, signal) is Ask,
        stage_after(Stage::Ask, signal) is Reply,
        stage_after(Stage::Reply, signal) is Recheck <==> signal !is NoCall,
        stage_after(Stage::Reply, Signal::NoCall) is Checkpoint,
        stage_after(Stage::Recheck, signal) is Judge,
        stage_after(Stage::Judge, signal) is Pace <==> signal !is Irreversible,
        stage_after(Stage::Pace, signal) is Carry,
        stage_after(Stage::Carry, signal) is Record,
        stage_after(Stage::Record, signal) is Checkpoint <==> signal !is Accepted,
{
}

} // verus!
