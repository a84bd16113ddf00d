use mew_agent::eval::report::{EvalReport, RunMetrics};
use mew_agent::handoff::BrowserStatus;
use std::time::Duration;

fn sample_row(id: &str, passed: bool) -> RunMetrics {
    RunMetrics {
        scenario_id: id.into(),
        passed,
        status: BrowserStatus::Done,
        subtask_count: 2,
        step_count: 2,
        elapsed: Duration::from_millis(12),
        failure_modes_hit: vec!["modal_interruption".into()],
        failure_reason: String::new(),
        chat_reply: "ok".into(),
    }
}

#[test]
fn markdown_includes_all_rows_and_pass_rate() {
    let mut r = EvalReport::new(0);
    r.push(sample_row("a", true));
    r.push(sample_row("b", false));
    let md = r.to_markdown("50");
    assert!(md.contains("| a |"));
    assert!(md.contains("| b |"));
    assert!(md.contains("Pass rate"));
}

#[test]
fn csv_has_header_and_one_row_per_metric() {
    let mut r = EvalReport::new(0);
    r.push(sample_row("a", true));
    r.push(sample_row("b", false));
    let csv = r.to_csv();
    let lines: Vec<&str> = csv.lines().collect();
    assert_eq!(lines.len(), 3, "header + 2 rows");
    assert!(lines[0].starts_with("scenario_id,"));
}

#[test]
fn csv_escapes_commas_in_failure_reason() {
    let mut r = EvalReport::new(0);
    let mut row = sample_row("a", false);
    row.failure_reason = "boom, then another".into();
    r.push(row);
    let csv = r.to_csv();
    assert!(csv.contains("\"boom, then another\""));
}
