//! Runs scenarios: the handoff is built, the reply is phrased, and both are held
//! to the contract of a handoff.

use vstd::prelude::*;
use std::time::{Duration, Instant};
use crate::chat_agent::ChatAgent;
use crate::chat_agent;
use crate::clock;
use crate::config::{AgentConfig, OpencodeZenConfig, ProviderConfig};
use crate::eval::assertions::{assert_handoff_contract, AssertionResult};
use crate::eval::assertions;
use crate::eval::harness::{default_scenarios, Scenario, ScenarioOutcome};
use crate::eval::harness;
use crate::eval::report::{EvalReport, RunMetrics};
use crate::handoff::Handoff;
use crate::planner;
use crate::text;

verus! {

/// The id of the message of a scenario.
pub open spec fn eval_id(s: Scenario, secs: u64) -> Seq<char> {
    "eval:"@ + s.id@ + ":"@ + text::decimal(secs as nat)
}

/// How many subtasks the task of a scenario has to come apart into.
pub open spec fn min_subtasks(s: Scenario) -> nat {
    if s.expected_subtask_count >= 2 {
        2
    } else {
        1
    }
}

/// What is wrong with the round trip of a scenario.
pub open spec fn trip_error(s: Scenario, h: Handoff, reply: Seq<char>, secs: u64) -> Option<
    Seq<char>,
> {
    assertions::contract_error(
        s.task@,
        h,
        s.expected_result,
        reply,
        eval_id(s, secs),
        min_subtasks(s),
    )
}

/// Whether the names of the known interruptions are all among the found ones.
pub open spec fn names_detected(s: Scenario) -> bool {
    forall|i: int|
        0 <= i < s.known_failure_modes@.len() ==> harness::mode_names(
            s.page_state.modes(),
        ).contains((#[trigger] s.known_failure_modes@[i]).spec_name())
}

/// Why a scenario did not pass.
pub open spec fn failure_text(s: Scenario, error: Option<Seq<char>>) -> Seq<char> {
    match error {
        Some(e) => "contract: "@ + e,
        None => if names_detected(s) {
            Seq::empty()
        } else {
            "detector missed a known mode: known="@ + text::quoted_list(
                harness::mode_names(s.known_failure_modes@),
            ) + ", detected="@ + text::quoted_list(harness::mode_names(s.page_state.modes()))
        },
    }
}

/// Whether `o` is the outcome of the scenario with the given handoff.
pub open spec fn outcome_of(
    o: ScenarioOutcome,
    s: Scenario,
    h: Handoff,
    planner_enabled: bool,
    secs: u64,
) -> bool {
    let reply = chat_agent::reply_text(planner_enabled, s.expected_result);
    let error = trip_error(s, h, reply, secs);
    &&& o.scenario_id@ == s.id@
    &&& o.passed == (error is None && names_detected(s))
    &&& o.status == s.expected_result.status
    &&& o.subtask_count == h.subtasks@.len()
    &&& o.step_count == s.expected_result.key_findings@.len() as u32
    &&& text::views(o.failure_modes_hit@) == harness::mode_names(s.page_state.modes())
    &&& o.failure_reason@ == failure_text(s, error)
    &&& o.summary == s.expected_result.summary
    &&& o.chat_reply@ == reply
}

/// Whether a handoff is that of the scenario.
pub open spec fn handoff_of(h: Handoff, s: Scenario, secs: u64) -> bool {
    &&& h.task_description@ == s.task@
    &&& chat_agent::planned_subtasks(h.subtasks@, s.task@)
    &&& h.constraints@.len() == 0
    &&& h.originating_message_id@ == eval_id(s, secs)
    &&& h.research_plan is None
}

fn contains_text(list: &Vec<String>, t: &str) -> (r: bool)
    ensures
        r == text::views(list@).contains(t@),
{
    let mut i: usize = 0;
    while i < list.len()
        invariant
            i <= list@.len(),
            forall|j: int| 0 <= j < i ==> #[trigger] text::views(list@)[j] != t@,
        decreases list@.len() - i,
    {
        assert(text::views(list@)[i as int] == list@[i as int]@);
        if text::same(list[i].as_str(), t) {
            return true;
        }
        i += 1;
    }
    false
}

fn known_names(s: &Scenario) -> (r: Vec<String>)
    ensures
        text::views(r@) == harness::mode_names(s.known_failure_modes@),
{
    let ghost all = harness::mode_names(s.known_failure_modes@);
    let mut out: Vec<String> = Vec::new();
    let mut i: usize = 0;
    while i < s.known_failure_modes.len()
        invariant
            i <= s.known_failure_modes@.len(),
            all == harness::mode_names(s.known_failure_modes@),
            text::views(out@) == all.take(i as int),
        decreases s.known_failure_modes@.len() - i,
    {
        let ghost before = out@;
        out.push(text::owned(s.known_failure_modes[i].as_str()));
        i += 1;
        assert(text::views(out@) == text::views(before).push(all[i - 1]));
        assert(all.take(i as int) == all.take(i - 1).push(all[i - 1]));
    }
    assert(all.take(all.len() as int) == all);
    out
}

/// Runs a scenario at the given second.
pub fn run_scenario_at(scenario: &Scenario, chat_agent: &ChatAgent, secs: u64) -> (r:
    ScenarioOutcome)
    ensures
        exists|h: Handoff|
            handoff_of(h, *scenario, secs) && #[trigger] outcome_of(
                r,
                *scenario,
                h,
                chat_agent.config.agent.planner_enabled,
                secs,
            ),
{
    let mut id = text::owned("eval:");
    id.append(scenario.id);
    id.append(":");
    id.append(text::decimal_of(secs).as_str());
    let handoff = scenario.build_handoff(id.as_str());
    let result = &scenario.expected_result;
    let history: Vec<crate::router::ConversationMessage> = Vec::new();
    let chat_reply = chat_agent.synthesize_reply(result, history.as_slice(), &handoff);
    let min_subtasks: usize = if scenario.expected_subtask_count >= 2 {
        2
    } else {
        1
    };
    let contract: AssertionResult = assert_handoff_contract(
        scenario.task,
        &handoff,
        result,
        chat_reply.as_str(),
        id.as_str(),
        min_subtasks,
    );
    let detected = scenario.detected_failure_modes();
    let known = known_names(scenario);
    assert(text::views(known@).len() == known@.len());
    let mut detection_ok = true;
    let mut i: usize = 0;
    while i < known.len()
        invariant
            i <= known@.len(),
            text::views(known@) == harness::mode_names(scenario.known_failure_modes@),
            text::views(detected@) == harness::mode_names(scenario.page_state.modes()),
            known@.len() == scenario.known_failure_modes@.len(),
            detection_ok == forall|j: int|
                0 <= j < i ==> harness::mode_names(scenario.page_state.modes()).contains(
                    (#[trigger] scenario.known_failure_modes@[j]).spec_name(),
                ),
        decreases known@.len() - i,
    {
        assert(text::views(known@)[i as int] == known@[i as int]@);
        assert(known@[i as int]@ == scenario.known_failure_modes@[i as int].spec_name());
        if !contains_text(&detected, known[i].as_str()) {
            detection_ok = false;
        }
        i += 1;
    }
    assert(detection_ok == names_detected(*scenario));
    let passed = contract.is_ok() && detection_ok;
    let failure_reason = match contract {
        Err(e) => {
            let mut out = text::owned("contract: ");
            out.append(e.as_str());
            out
        },
        Ok(_) => if detection_ok {
            String::new()
        } else {
            let mut out = text::owned("detector missed a known mode: known=");
            out.append(text::quote_list(&known).as_str());
            out.append(", detected=");
            out.append(text::quote_list(&detected).as_str());
            out
        },
    };
    let r = ScenarioOutcome {
        scenario_id: text::owned(scenario.id),
        passed,
        status: result.status,
        subtask_count: handoff.subtasks.len(),
        step_count: #[verifier::truncate] (result.key_findings.len() as u32),
        failure_modes_hit: detected,
        failure_reason,
        summary: result.summary.clone(),
        chat_reply,
    };
    assert(outcome_of(r, *scenario, handoff, chat_agent.config.agent.planner_enabled, secs));
    r
}

/// Runs a scenario at the present second.
pub fn run_scenario(scenario: &Scenario, chat_agent: &ChatAgent) -> (r: ScenarioOutcome)
    ensures
        exists|h: Handoff, secs: u64|
            handoff_of(h, *scenario, secs) && #[trigger] outcome_of(
                r,
                *scenario,
                h,
                chat_agent.config.agent.planner_enabled,
                secs,
            ),
{
    let secs: u64 = clock::now_secs();
    run_scenario_at(scenario, chat_agent, secs)
}

/// Whether a row is that of a scenario, whatever its time.
pub open spec fn row_of(m: RunMetrics, s: Scenario, planner_enabled: bool) -> bool {
    exists|o: ScenarioOutcome, h: Handoff, secs: u64|
        m.of(o) && handoff_of(h, s, secs) && #[trigger] outcome_of(o, s, h, planner_enabled, secs)
}

/// Runs scenarios and reports on them, one row for each in order.
pub fn run_scenarios(scenarios: &[Scenario], chat_agent: &ChatAgent) -> (r: EvalReport)
    ensures
        r.rows@.len() == scenarios@.len(),
        forall|i: int|
            0 <= i < scenarios@.len() ==> row_of(
                #[trigger] r.rows@[i],
                scenarios@[i],
                chat_agent.config.agent.planner_enabled,
            ),
{
    let mut report = EvalReport::new(clock::now_secs());
    let mut i: usize = 0;
    while i < scenarios.len()
        invariant
            i <= scenarios@.len(),
            report.rows@.len() == i,
            forall|j: int|
                0 <= j < i ==> row_of(
                    #[trigger] report.rows@[j],
                    scenarios@[j],
                    chat_agent.config.agent.planner_enabled,
                ),
        decreases scenarios@.len() - i,
    {
        let started = Instant::now();
        let outcome = run_scenario(&scenarios[i], chat_agent);
        let elapsed = started.elapsed();
        let m = RunMetrics::from_outcome(&outcome, elapsed);
        assert(row_of(m, scenarios@[i as int], chat_agent.config.agent.planner_enabled));
        report.push(m);
        i += 1;
    }
    report
}

/// The chat agent that scenarios are run with.
pub fn default_chat_agent() -> (r: ChatAgent)
    ensures
        r.config.opencode_zen.base_url@ == "http://test"@,
        r.config.opencode_zen.api_key@ == "test"@,
        r.config.opencode_zen.default_model@ == "test"@,
        r.config.opencode_zen.max_iterations == 1,
        r.config.opencode_zen.max_tokens is None,
        r.config.browser is None,
        r.config.agent.is_default(),
        r.system_prompt@ == chat_agent::CHAT_AGENT_SYSTEM_PROMPT@,
        r.classify_cache is None,
{
    ChatAgent::new(
        ProviderConfig {
            opencode_zen: OpencodeZenConfig {
                base_url: text::owned("http://test"),
                api_key: text::owned("test"),
                default_model: text::owned("test"),
                max_iterations: 1,
                max_tokens: None,
            },
            browser: None,
            agent: AgentConfig::default(),
        },
    )
}

/// The scenario with the given id.
pub fn find_scenario(id: &str) -> (r: Option<Scenario>)
    ensures
        match r {
            Some(s) => s.id@ == id@ && harness::in_suite(s) && harness::suite_ids().contains(id@),
            None => !harness::suite_ids().contains(id@),
        },
{
    let mut all = default_scenarios();
    let ghost ids = harness::suite_ids();
    let mut i: usize = 0;
    while i < all.len()
        invariant
            i <= all@.len() == ids.len(),
            ids == harness::suite_ids(),
            forall|j: int|
                0 <= j < all@.len() ==> (#[trigger] all@[j]).id@ == ids[j] && harness::in_suite(
                    all@[j],
                ),
            forall|j: int| 0 <= j < i ==> #[trigger] ids[j] != id@,
        decreases all@.len() - i,
    {
        if text::same(all[i].id, id) {
            assert(ids[i as int] == id@);
            return Some(all.swap_remove(i));
        }
        assert(all@[i as int].id@ == ids[i as int]);
        i += 1;
    }
    None
}

/// A report of the outcome of one scenario. Nothing of the scenario itself is shown.
pub fn report_from_outcome(
    scenario: &Scenario,
    outcome: ScenarioOutcome,
    elapsed: Duration,
) -> (r: EvalReport)
    ensures
        r.rows@.len() == 1,
        r.rows@[0].of(outcome),
        r.rows@[0].elapsed == elapsed,
{
    let mut report = EvalReport::new(clock::now_secs());
    report.push(RunMetrics::from_outcome(&outcome, elapsed));
    let _ = scenario;
    report
}

// ---------------------------------------------------------------------------
// Laws
// ---------------------------------------------------------------------------

/// A scenario passes exactly where its trip keeps the contract and every failure mode
/// that it is known for is among those that were detected; what fails is told.
pub proof fn law_scenarios_pass_where_nothing_is_missed(
    o: ScenarioOutcome,
    s: Scenario,
    h: Handoff,
    planner_enabled: bool,
    secs: u64,
)
    requires
        handoff_of(h, s, secs),
        outcome_of(o, s, h, planner_enabled, secs),
    ensures
        ({
            let reply = chat_agent::reply_text(planner_enabled, s.expected_result);
            let error = trip_error(s, h, reply, secs);
            &&& o.passed <==> error is None && (forall|i: int|
                0 <= i < s.known_failure_modes@.len() ==> text::views(
                    o.failure_modes_hit@,
                ).contains((#[trigger] s.known_failure_modes@[i]).spec_name()))
            &&& error matches Some(e) ==> text::occurs(o.failure_reason@, e)
            &&& o.passed <==> o.failure_reason@.len() == 0
            &&& o.chat_reply@ == reply
        }),
        o.scenario_id@ == s.id@,
        o.status == s.expected_result.status,
        o.subtask_count == h.subtasks@.len(),
        o.summary@ == s.expected_result.summary@,
{
    broadcast use text::group_occurs;

    reveal_strlit("contract: ");
    reveal_strlit("detector missed a known mode: known=");
}

/// The task of a scenario is handed on word for word under an id that names the scenario
/// and its time, and the least number of subtasks is two for a task of several.
pub proof fn law_scenarios_are_handed_on(s: Scenario, h: Handoff, secs: u64)
    requires
        handoff_of(h, s, secs),
    ensures
        h.task_description@ == s.task@,
        text::occurs(h.originating_message_id@, "eval:"@ + s.id@),
        text::occurs(h.originating_message_id@, ":"@ + text::decimal(secs as nat)),
        h.subtasks@.len() == planner::planned(s.task@).len(),
        s.expected_subtask_count >= 2 <==> min_subtasks(s) == 2,
        s.expected_subtask_count < 2 <==> min_subtasks(s) == 1,
{
    broadcast use text::group_occurs;

}

} // verus!
