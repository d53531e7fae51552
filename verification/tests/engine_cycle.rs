use proxy_reconciler::engine::{OpKind, ReconciliationEngine};
use proxy_reconciler::fetch::{desired_from_identities, FetchError};
use proxy_reconciler::member::Member;
use proxy_reconciler::target::SimulatedTarget;
use proxy_reconciler::MutationOutcome;

fn ids(v: &[&str]) -> Vec<String> {
    v.iter().map(|s| s.to_string()).collect()
}

#[test]
fn convergence_one_cycle() {
    let mut engine = ReconciliationEngine::new();
    let mut target = SimulatedTarget::new();
    let desired = desired_from_identities(&ids(&["a", "b", "c"]));
    let report = engine.run_cycle(Ok(desired), &mut target);
    assert!(!report.fetch_failed);
    assert_eq!(report.entries.len(), 3);
    for entry in &report.entries {
        assert!(matches!(entry.outcome, MutationOutcome::Applied));
        assert!(matches!(entry.kind, OpKind::Add));
    }
    for id in ["a", "b", "c"] {
        assert!(engine.observed_contains(&id.to_string()));
        assert!(target.contains(&id.to_string()));
    }
}

#[test]
fn converged_second_cycle_is_noop() {
    let mut engine = ReconciliationEngine::new();
    let mut target = SimulatedTarget::new();
    let first = engine.run_cycle(Ok(desired_from_identities(&ids(&["a", "b"]))), &mut target);
    assert_eq!(first.entries.len(), 2);
    let second = engine.run_cycle(Ok(desired_from_identities(&ids(&["a", "b"]))), &mut target);
    assert!(!second.fetch_failed);
    assert_eq!(second.entries.len(), 0);
}

#[test]
fn no_remove_of_unknown() {
    let mut target = SimulatedTarget::new();
    // members the engine never added, pre-existing on the target
    target.add_member(&Member::from_identity("stranger-1".to_string()));
    target.add_member(&Member::from_identity("stranger-2".to_string()));
    let mut engine = ReconciliationEngine::new();
    let report = engine.run_cycle(Ok(desired_from_identities(&ids(&["a"]))), &mut target);
    for entry in &report.entries {
        assert!(matches!(entry.kind, OpKind::Add));
    }
    assert!(target.contains(&"stranger-1".to_string()));
    assert!(target.contains(&"stranger-2".to_string()));
    assert!(target.contains(&"a".to_string()));
}

#[test]
fn cold_start_re_add() {
    // the target still holds everything from before a restart
    let mut target = SimulatedTarget::new();
    target.add_member(&Member::from_identity("a".to_string()));
    target.add_member(&Member::from_identity("b".to_string()));
    // a fresh engine has an empty observed record
    let mut engine = ReconciliationEngine::new();
    let report = engine.run_cycle(Ok(desired_from_identities(&ids(&["a", "b"]))), &mut target);
    assert_eq!(report.entries.len(), 2);
    let mut seen: Vec<&str> = Vec::new();
    for entry in &report.entries {
        assert!(matches!(entry.kind, OpKind::Add));
        assert!(matches!(entry.outcome, MutationOutcome::Applied));
        seen.push(entry.identity.as_str());
    }
    seen.sort();
    assert_eq!(seen, vec!["a", "b"]);
    assert!(engine.observed_contains(&"a".to_string()));
    assert!(engine.observed_contains(&"b".to_string()));
    assert!(target.contains(&"a".to_string()));
    assert!(target.contains(&"b".to_string()));
}

#[test]
fn diff_example() {
    // desired = {a, b, c}; observed = {b, c, z}
    let mut engine = ReconciliationEngine::new();
    for id in ["b", "c", "z"] {
        let m = Member::from_identity(id.to_string());
        engine.record_add(&m, MutationOutcome::Applied);
    }
    let desired = desired_from_identities(&ids(&["a", "b", "c"]));
    let plan = engine.plan(&desired);
    assert_eq!(plan.to_add.len(), 1);
    assert_eq!(plan.to_add[0].identity, "a");
    assert_eq!(plan.to_remove.len(), 1);
    assert_eq!(plan.to_remove[0], "z");
}

#[test]
fn fetch_failure_is_noop() {
    let mut engine = ReconciliationEngine::new();
    engine.record_add(
        &Member::from_identity("kept".to_string()),
        MutationOutcome::Applied,
    );
    let mut target = SimulatedTarget::new();
    target.add_member(&Member::from_identity("kept".to_string()));
    let report = engine.run_cycle(
        Err::<Vec<Member>, FetchError>(FetchError::Status(401)),
        &mut target,
    );
    assert!(report.fetch_failed);
    assert_eq!(report.entries.len(), 0);
    assert!(engine.observed_contains(&"kept".to_string()));
    assert!(target.contains(&"kept".to_string()));
}

#[test]
fn partial_failure_isolation() {
    let mut engine = ReconciliationEngine::new();
    let desired = desired_from_identities(&ids(&["x", "y", "z"]));
    let plan = engine.plan(&desired);
    assert_eq!(plan.to_add.len(), 3);
    // x fails transiently; y and z still succeed in the same cycle
    for m in &plan.to_add {
        let outcome = if m.identity == "x" {
            MutationOutcome::Unavailable
        } else {
            MutationOutcome::Applied
        };
        engine.record_add(m, outcome);
    }
    assert!(!engine.observed_contains(&"x".to_string()));
    assert!(engine.observed_contains(&"y".to_string()));
    assert!(engine.observed_contains(&"z".to_string()));
    // the next cycle's recomputed diff retries x alone
    let retry = engine.plan(&desired);
    assert_eq!(retry.to_add.len(), 1);
    assert_eq!(retry.to_add[0].identity, "x");
    assert_eq!(retry.to_remove.len(), 0);
    // once the fault clears the retried addition is recorded
    engine.record_add(&retry.to_add[0], MutationOutcome::Applied);
    assert!(engine.observed_contains(&"x".to_string()));
}

#[test]
fn rejected_add_leaves_record_unchanged() {
    let mut engine = ReconciliationEngine::new();
    let m = Member::from_identity("r".to_string());
    engine.record_add(&m, MutationOutcome::Rejected);
    assert!(!engine.observed_contains(&"r".to_string()));
}

#[test]
fn failed_remove_keeps_record() {
    let mut engine = ReconciliationEngine::new();
    let m = Member::from_identity("m".to_string());
    engine.record_add(&m, MutationOutcome::Applied);
    engine.record_remove(&"m".to_string(), MutationOutcome::Unavailable);
    assert!(engine.observed_contains(&"m".to_string()));
    engine.record_remove(&"m".to_string(), MutationOutcome::Applied);
    assert!(!engine.observed_contains(&"m".to_string()));
}

#[test]
fn removal_cycle_updates_target() {
    let mut engine = ReconciliationEngine::new();
    let mut target = SimulatedTarget::new();
    engine.run_cycle(Ok(desired_from_identities(&ids(&["a", "b"]))), &mut target);
    // "b" disappears from the desired state
    let report = engine.run_cycle(Ok(desired_from_identities(&ids(&["a"]))), &mut target);
    assert_eq!(report.entries.len(), 1);
    assert!(matches!(report.entries[0].kind, OpKind::Remove));
    assert_eq!(report.entries[0].identity, "b");
    assert!(!target.contains(&"b".to_string()));
    assert!(target.contains(&"a".to_string()));
    assert!(!engine.observed_contains(&"b".to_string()));
}
