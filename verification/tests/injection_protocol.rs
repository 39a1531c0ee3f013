use winhider::injector::{InjectionError, run_injection};

fn outcomes_with_failure_at(k: usize) -> Vec<bool> {
    (0..11).map(|i| i != k).collect()
}

#[test]
fn all_steps_succeeding_delivers_the_request() {
    let s = run_injection(&vec![true; 11]);
    assert!(s.failure.is_none());
    assert!(s.opened_ever);
    assert!(!s.process_open && !s.alloc_held && !s.thread_open);
}

#[test]
fn missing_module_fails_before_any_process_is_opened() {
    let s = run_injection(&outcomes_with_failure_at(0));
    assert_eq!(s.failure, Some(InjectionError::NotFound));
    assert!(!s.opened_ever);
    assert!(!s.process_open && !s.alloc_held && !s.thread_open);
}

#[test]
fn each_fallible_step_maps_to_its_own_error() {
    let expected = [
        InjectionError::NotFound,
        InjectionError::CopyFailed,
        InjectionError::ProcessAccessDenied,
        InjectionError::RemoteAllocationFailed,
        InjectionError::RemoteWriteFailed,
        InjectionError::EntryPointResolutionFailed,
        InjectionError::RemoteThreadCreationFailed,
    ];
    for (k, err) in expected.iter().enumerate() {
        let s = run_injection(&outcomes_with_failure_at(k));
        assert_eq!(s.failure, Some(*err));
        assert!(!s.process_open && !s.alloc_held && !s.thread_open);
    }
}

#[test]
fn a_wait_timeout_is_not_an_error() {
    // step seven is the bounded wait for the remote thread
    let s = run_injection(&outcomes_with_failure_at(7));
    assert!(s.failure.is_none());
    assert!(!s.process_open && !s.alloc_held && !s.thread_open);
}

#[test]
fn cleanup_happens_on_every_path() {
    for k in 0..11 {
        let s = run_injection(&outcomes_with_failure_at(k));
        assert!(!s.process_open && !s.alloc_held && !s.thread_open);
    }
    for k in 0..11 {
        for j in 0..11 {
            let outcomes: Vec<bool> = (0..11).map(|i| i != k && i != j).collect();
            let s = run_injection(&outcomes);
            assert!(!s.process_open && !s.alloc_held && !s.thread_open);
        }
    }
}
