use winhider::actions::{InjectionAction, action_token};
use winhider::artifact::{
    ArtifactNamer, build_artifact_name, decode_actions, is_cleanup_candidate,
};

#[test]
fn tokens_are_the_fixed_vocabulary() {
    assert_eq!(action_token(InjectionAction::HideCapture), "mozavcodec");
    assert_eq!(action_token(InjectionAction::ShowCapture), "mozavutil");
    assert_eq!(action_token(InjectionAction::HideTaskbar), "gkcodecs");
    assert_eq!(action_token(InjectionAction::ShowTaskbar), "freebl3");
}

#[test]
fn artifact_name_embeds_token_and_counter() {
    assert_eq!(build_artifact_name(InjectionAction::HideCapture, 17), "mozavcodec_17.dll");
    assert_eq!(build_artifact_name(InjectionAction::ShowTaskbar, 0), "freebl3_0.dll");
}

#[test]
fn namer_never_repeats_a_name() {
    let mut namer = ArtifactNamer::new(1000);
    let first = namer.next_name(InjectionAction::HideCapture);
    let second = namer.next_name(InjectionAction::HideCapture);
    let third = namer.next_name(InjectionAction::HideCapture);
    assert_ne!(first, second);
    assert_ne!(second, third);
    assert_ne!(first, third);
    assert_eq!(first, "mozavcodec_1000.dll");
    assert_eq!(second, "mozavcodec_1001.dll");
}

#[test]
fn every_artifact_name_decodes_to_exactly_its_action() {
    let mut namer = ArtifactNamer::new(5);
    for action in [
        InjectionAction::HideCapture,
        InjectionAction::ShowCapture,
        InjectionAction::HideTaskbar,
        InjectionAction::ShowTaskbar,
    ] {
        let name = namer.next_name(action);
        let d = decode_actions(&name);
        assert_eq!(d.hide_capture, action == InjectionAction::HideCapture);
        assert_eq!(d.show_capture, action == InjectionAction::ShowCapture);
        assert_eq!(d.hide_taskbar, action == InjectionAction::HideTaskbar);
        assert_eq!(d.show_taskbar, action == InjectionAction::ShowTaskbar);
    }
}

#[test]
fn decoding_sees_through_a_full_path() {
    let d = decode_actions("C:\\Program Files\\app\\mozavutil_123.dll");
    assert!(!d.hide_capture);
    assert!(d.show_capture);
    assert!(!d.hide_taskbar);
    assert!(!d.show_taskbar);
}

#[test]
fn decoding_is_case_insensitive() {
    let d = decode_actions("C:\\APPS\\MOZAVCODEC_5.DLL");
    assert!(d.hide_capture);
    assert!(!d.show_capture);
}

#[test]
fn decoding_reports_every_token_it_finds() {
    let d = decode_actions("gkcodecs_and_freebl3.dll");
    assert!(!d.hide_capture);
    assert!(!d.show_capture);
    assert!(d.hide_taskbar);
    assert!(d.show_taskbar);
}

#[test]
fn decoding_a_plain_module_finds_nothing() {
    let d = decode_actions("C:\\Windows\\System32\\kernel32.dll");
    assert!(!d.hide_capture && !d.show_capture && !d.hide_taskbar && !d.show_taskbar);
}

#[test]
fn cleanup_accepts_exactly_the_artifact_convention() {
    assert!(is_cleanup_candidate("mozavcodec_123.dll"));
    assert!(is_cleanup_candidate("mozavutil_9.dll"));
    assert!(is_cleanup_candidate("gkcodecs_0.dll"));
    assert!(is_cleanup_candidate("freebl3_42.dll"));
    // the token must lead and the extension must close
    assert!(!is_cleanup_candidate("mozavcodec.dll"));
    assert!(!is_cleanup_candidate("x_mozavcodec_123.dll"));
    assert!(!is_cleanup_candidate("mozavcodec_123.txt"));
    assert!(!is_cleanup_candidate("lgpllibs.dll"));
    assert!(!is_cleanup_candidate(""));
}

#[test]
fn every_generated_artifact_is_swept_at_next_start() {
    let mut namer = ArtifactNamer::new(77);
    for action in [
        InjectionAction::HideCapture,
        InjectionAction::ShowCapture,
        InjectionAction::HideTaskbar,
        InjectionAction::ShowTaskbar,
    ] {
        let name = namer.next_name(action);
        assert!(is_cleanup_candidate(&name));
    }
}
