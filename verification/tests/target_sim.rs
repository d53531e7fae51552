use proxy_reconciler::member::Member;
use proxy_reconciler::target::SimulatedTarget;
use proxy_reconciler::MutationOutcome;

#[test]
fn add_is_idempotent() {
    let m = Member::from_identity("u".to_string());
    let mut once = SimulatedTarget::new();
    once.add_member(&m);
    let mut twice = SimulatedTarget::new();
    let first = twice.add_member(&m);
    let second = twice.add_member(&m);
    assert!(matches!(first, MutationOutcome::Applied));
    assert!(matches!(second, MutationOutcome::Applied));
    assert_eq!(once.contains(&"u".to_string()), twice.contains(&"u".to_string()));
    assert!(twice.contains(&"u".to_string()));
}

#[test]
fn remove_is_idempotent() {
    let m = Member::from_identity("u".to_string());
    let mut target = SimulatedTarget::new();
    target.add_member(&m);
    let first = target.remove_member(&"u".to_string());
    let second = target.remove_member(&"u".to_string());
    assert!(matches!(first, MutationOutcome::Applied));
    assert!(matches!(second, MutationOutcome::Applied));
    assert!(!target.contains(&"u".to_string()));
}

#[test]
fn remove_of_absent_is_success() {
    let mut target = SimulatedTarget::new();
    let outcome = target.remove_member(&"never-there".to_string());
    assert!(matches!(outcome, MutationOutcome::Applied));
}

#[test]
fn contains_tracks_membership() {
    let mut target = SimulatedTarget::new();
    assert!(!target.contains(&"a".to_string()));
    target.add_member(&Member::from_identity("a".to_string()));
    assert!(target.contains(&"a".to_string()));
    assert!(!target.contains(&"b".to_string()));
}
