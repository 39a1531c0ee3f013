use winhider::actions::InjectionAction;
use winhider::registry::{
    Registry, ToggleKind, WindowObs, should_auto_hide, should_list_window,
};

fn obs(hwnd: u64, pid: u32, title: &str) -> WindowObs {
    WindowObs { hwnd, pid, title: title.to_string() }
}

#[test]
fn auto_hide_issues_exactly_two_requests_for_a_matching_new_window() {
    let mut registry = Registry::new(vec!["notepad".to_string()]);
    let reqs = registry.refresh(vec![obs(10, 7, "Untitled - Notepad")]);
    assert_eq!(reqs.len(), 2);
    assert_eq!(reqs[0].pid, 7);
    assert_eq!(reqs[0].action, InjectionAction::HideTaskbar);
    assert_eq!(reqs[1].pid, 7);
    assert_eq!(reqs[1].action, InjectionAction::HideCapture);
    assert!(registry.windows[0].is_taskbar_hidden);
    assert!(registry.windows[0].is_capture_hidden);
}

#[test]
fn non_matching_new_window_starts_unhidden_with_no_requests() {
    let mut registry = Registry::new(vec!["notepad".to_string()]);
    let reqs = registry.refresh(vec![obs(11, 8, "Calculator")]);
    assert!(reqs.is_empty());
    assert!(!registry.windows[0].is_taskbar_hidden);
    assert!(!registry.windows[0].is_capture_hidden);
}

#[test]
fn refresh_preserves_flags_of_windows_seen_before() {
    let mut registry = Registry::new(Vec::new());
    registry.refresh(vec![obs(10, 7, "Editor"), obs(20, 9, "Terminal")]);
    registry.mark_toggled(10, ToggleKind::Capture, true);
    let reqs = registry.refresh(vec![obs(20, 9, "Terminal"), obs(10, 7, "Editor - changed")]);
    assert!(reqs.is_empty());
    assert_eq!(registry.windows.len(), 2);
    assert_eq!(registry.windows[1].hwnd, 10);
    assert!(registry.windows[1].is_capture_hidden);
    assert!(!registry.windows[1].is_taskbar_hidden);
    assert!(!registry.windows[0].is_capture_hidden);
}

#[test]
fn auto_hide_is_evaluated_only_at_first_sight() {
    let mut registry = Registry::new(vec!["notepad".to_string()]);
    let first = registry.refresh(vec![obs(10, 7, "plain window")]);
    assert!(first.is_empty());
    // the title now matches, but the window is no longer new
    let second = registry.refresh(vec![obs(10, 7, "my notepad")]);
    assert!(second.is_empty());
    assert!(!registry.windows[0].is_capture_hidden);
    assert!(!registry.windows[0].is_taskbar_hidden);
}

#[test]
fn a_window_absent_from_the_new_pass_is_evicted() {
    let mut registry = Registry::new(Vec::new());
    registry.refresh(vec![obs(10, 7, "One"), obs(20, 9, "Two")]);
    registry.refresh(vec![obs(20, 9, "Two")]);
    assert_eq!(registry.windows.len(), 1);
    assert_eq!(registry.windows[0].hwnd, 20);
}

#[test]
fn matching_ignores_case_on_both_sides() {
    let patterns = vec!["NOTEPAD".to_string()];
    assert!(should_auto_hide("my notepad session", &patterns));
    let patterns = vec!["notepad".to_string()];
    assert!(should_auto_hide("NOTEPAD", &patterns));
    assert!(!should_auto_hide("calculator", &patterns));
}

#[test]
fn empty_patterns_match_nothing() {
    let patterns = vec![String::new()];
    assert!(!should_auto_hide("anything", &patterns));
    assert!(!should_auto_hide("", &Vec::new()));
}

#[test]
fn plan_toggle_inverts_the_tracked_flag() {
    let mut registry = Registry::new(Vec::new());
    registry.refresh(vec![obs(10, 7, "Editor")]);
    let req = registry.plan_toggle(10, ToggleKind::Capture).unwrap();
    assert_eq!(req.pid, 7);
    assert_eq!(req.action, InjectionAction::HideCapture);
    registry.commit_toggle(10, ToggleKind::Capture, true);
    let req = registry.plan_toggle(10, ToggleKind::Capture).unwrap();
    assert_eq!(req.action, InjectionAction::ShowCapture);
    let req = registry.plan_toggle(10, ToggleKind::Taskbar).unwrap();
    assert_eq!(req.action, InjectionAction::HideTaskbar);
    assert!(registry.plan_toggle(99, ToggleKind::Capture).is_none());
}

#[test]
fn failed_toggle_leaves_the_cached_flag_alone() {
    let mut registry = Registry::new(Vec::new());
    registry.refresh(vec![obs(10, 7, "Editor")]);
    registry.commit_toggle(10, ToggleKind::Taskbar, false);
    assert!(!registry.windows[0].is_taskbar_hidden);
    registry.commit_toggle(10, ToggleKind::Taskbar, true);
    assert!(registry.windows[0].is_taskbar_hidden);
}

#[test]
fn mark_toggled_on_an_untracked_handle_changes_nothing() {
    let mut registry = Registry::new(Vec::new());
    registry.refresh(vec![obs(10, 7, "Editor")]);
    registry.mark_toggled(99, ToggleKind::Capture, true);
    assert!(!registry.windows[0].is_capture_hidden);
}

#[test]
fn listing_skips_invisible_untitled_and_shell_windows() {
    assert!(should_list_window(true, "Editor"));
    assert!(!should_list_window(false, "Editor"));
    assert!(!should_list_window(true, ""));
    assert!(!should_list_window(true, "Program Manager"));
    assert!(!should_list_window(true, "Settings"));
    assert!(!should_list_window(true, "Microsoft Text Input Application"));
    assert!(!should_list_window(true, "WinHider"));
    assert!(should_list_window(true, "Settings - Editor"));
}
