use winhider::secret::{GuardEvent, GuardOutcome, GuardSession, SecretGuard, run_guard};

fn codes() -> Vec<u32> {
    vec![0x41, 0x42, 0x43, 0x44, 0x45]
}

fn keys(cs: &[u32]) -> Vec<GuardEvent> {
    cs.iter().map(|&c| GuardEvent::KeyDown(c)).collect()
}

#[test]
fn full_sequence_succeeds() {
    let inputs = keys(&[0x41, 0x42, 0x43, 0x44, 0x45]);
    let (outcome, consumed) = run_guard(codes(), &inputs);
    assert_eq!(outcome, GuardOutcome::Succeeded);
    assert_eq!(consumed, 5);
}

#[test]
fn wrong_key_aborts_and_later_inputs_are_never_observed() {
    let inputs = keys(&[0x41, 0x42, 0x58, 0x43, 0x44, 0x45]);
    let (outcome, consumed) = run_guard(codes(), &inputs);
    assert_eq!(outcome, GuardOutcome::Aborted);
    assert_eq!(consumed, 3);
}

#[test]
fn pointer_activity_aborts() {
    let inputs = vec![
        GuardEvent::KeyDown(0x41),
        GuardEvent::PointerActivity,
        GuardEvent::KeyDown(0x42),
    ];
    let (outcome, consumed) = run_guard(codes(), &inputs);
    assert_eq!(outcome, GuardOutcome::Aborted);
    assert_eq!(consumed, 2);
}

#[test]
fn matching_prefix_stays_pending() {
    let inputs = keys(&[0x41, 0x42]);
    let (outcome, consumed) = run_guard(codes(), &inputs);
    assert_eq!(outcome, GuardOutcome::Pending);
    assert_eq!(consumed, 2);
}

#[test]
fn empty_expected_sequence_counts_as_complete() {
    let inputs = keys(&[0x41]);
    let (outcome, consumed) = run_guard(Vec::new(), &inputs);
    assert_eq!(outcome, GuardOutcome::Succeeded);
    assert_eq!(consumed, 0);
}

#[test]
fn terminal_state_absorbs_further_events() {
    let mut guard = SecretGuard::new(codes());
    guard.on_key_down(0x99);
    assert_eq!(guard.outcome, GuardOutcome::Aborted);
    guard.on_key_down(0x41);
    guard.on_pointer_activity();
    assert_eq!(guard.outcome, GuardOutcome::Aborted);
    assert_eq!(guard.position, 0);
}

#[test]
fn session_with_no_hooks_reports_failure_and_releases_nothing() {
    let (mut session, proceed) = GuardSession::begin(codes(), false, false);
    assert!(!proceed);
    let conclusion = session.conclude();
    assert!(!conclusion.success);
    assert!(!conclusion.release_keyboard);
    assert!(!conclusion.release_mouse);
}

#[test]
fn session_releases_every_installed_hook() {
    let (mut session, proceed) = GuardSession::begin(codes(), true, true);
    assert!(proceed);
    for c in [0x41, 0x42, 0x43, 0x44, 0x45] {
        session.guard.on_key_down(c);
    }
    let conclusion = session.conclude();
    assert!(conclusion.success);
    assert!(conclusion.release_keyboard);
    assert!(conclusion.release_mouse);
    assert!(!session.keyboard_hooked);
    assert!(!session.mouse_hooked);
}

#[test]
fn session_with_one_hook_missing_reports_failure() {
    // with the mouse hook missing, pointer activity would be
    // unobservable, so the session refuses to run the guard at all and
    // concludes in failure even after a correct key sequence
    let (mut session, proceed) = GuardSession::begin(codes(), true, false);
    assert!(!proceed);
    for c in [0x41, 0x42, 0x43, 0x44, 0x45] {
        session.guard.on_key_down(c);
    }
    let conclusion = session.conclude();
    assert!(!conclusion.success);
    assert!(conclusion.release_keyboard);
    assert!(!conclusion.release_mouse);
}
