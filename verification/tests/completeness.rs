use mew_agent::completeness::{CompletenessTracker, DeclareItem, MarkOutcome, SubTaskStatus};

fn sig(s: &str) -> String {
    s.to_string()
}

#[test]
fn declare_populates_list_and_starts_pending() {
    let mut t = CompletenessTracker::new();
    let n = t
        .declare(vec![
            DeclareItem { id: "a".into(), description: "first".into() },
            DeclareItem { id: "b".into(), description: "second".into() },
        ])
        .unwrap();
    assert_eq!(n, 2);
    assert_eq!(t.subtasks.len(), 2);
    assert!(t.subtasks.iter().all(|s| matches!(s.status, SubTaskStatus::Pending)));
}

#[test]
fn mark_done_requires_fresh_snapshot() {
    let mut t = CompletenessTracker::new();
    t.declare(vec![DeclareItem { id: "a".into(), description: "first".into() }])
        .unwrap();
    match t.mark_done("a", &sig("")) {
        MarkOutcome::StaleEvidence { .. } => {}
        other => panic!("expected StaleEvidence, got {:?}", other),
    }
    t.record_snapshot(3, sig("page-sig-1"));
    match t.mark_done("a", &sig("page-sig-1")) {
        MarkOutcome::MarkedDone { evidence_iteration, .. } => {
            assert_eq!(evidence_iteration, 3);
        }
        other => panic!("expected MarkedDone, got {:?}", other),
    }
    match t.mark_done("a", &sig("page-sig-1")) {
        MarkOutcome::AlreadyTerminal { current } => {
            assert!(matches!(current, SubTaskStatus::Done));
        }
        other => panic!("expected AlreadyTerminal, got {:?}", other),
    }
}

#[test]
fn mark_done_rejects_wrong_signature() {
    let mut t = CompletenessTracker::new();
    t.declare(vec![DeclareItem { id: "a".into(), description: "x".into() }])
        .unwrap();
    t.record_snapshot(2, sig("snap-A"));
    match t.mark_done("a", &sig("snap-B")) {
        MarkOutcome::StaleEvidence { .. } => {}
        other => panic!("expected StaleEvidence, got {:?}", other),
    }
}

#[test]
fn gate_open_only_when_all_terminal() {
    let mut t = CompletenessTracker::new();
    t.declare(vec![
        DeclareItem { id: "a".into(), description: "x".into() },
        DeclareItem { id: "b".into(), description: "y".into() },
    ])
    .unwrap();
    assert!(!t.gate_open(), "fresh declaration should not be open");
    t.record_snapshot(1, sig("s1"));
    t.mark_done("a", &sig("s1")).unwrap_marker_done();
    assert!(!t.gate_open(), "one pending should keep gate closed");
    t.mark_skipped("b", "out of scope".to_string());
    assert!(t.gate_open(), "both resolved should open gate");
}

#[test]
fn re_declare_rejected_after_any_resolution() {
    let mut t = CompletenessTracker::new();
    t.declare(vec![DeclareItem { id: "a".into(), description: "x".into() }])
        .unwrap();
    t.record_snapshot(1, sig("s1"));
    t.mark_done("a", &sig("s1")).unwrap_marker_done();
    let res = t.declare(vec![DeclareItem { id: "a".into(), description: "y".into() }]);
    assert!(res.is_err(), "redeclare after Done must be rejected");
}

#[test]
fn empty_subtasks_means_gate_is_no_op() {
    let t = CompletenessTracker::new();
    assert!(t.gate_open(), "no subtasks declared should be an open gate");
    assert!(!t.has_subtasks());
}
trait MarkDoneExt {
    fn unwrap_marker_done(self);
}
impl MarkDoneExt for MarkOutcome {
    fn unwrap_marker_done(self) {
        assert!(
            matches!(self, MarkOutcome::MarkedDone { .. }),
            "expected MarkedDone, got {:?}",
            self
        );
    }
}
