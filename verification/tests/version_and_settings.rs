use winhider::settings::{AppSettings, clamp_monitor_index, default_preview_quality};
use winhider::version::{UpdateCheck, evaluate_update_response, is_version_newer};

#[test]
fn strictly_newer_tags_are_recognized() {
    assert!(is_version_newer("v1.0.0", "v1.0.1"));
    assert!(is_version_newer("v1.0.0", "v1.1.0"));
    assert!(is_version_newer("v1.9.9", "v2.0.0"));
    assert!(is_version_newer("1.2", "1.10"));
    assert!(is_version_newer("v2", "v10"));
}

#[test]
fn equal_and_older_tags_are_not_newer() {
    assert!(!is_version_newer("v1.0.0", "v1.0.0"));
    assert!(!is_version_newer("v1.0.1", "v1.0.0"));
    assert!(!is_version_newer("v2.0.0", "v1.9.9"));
    assert!(!is_version_newer("1.0", "1.0.0"));
    assert!(!is_version_newer("1.0.0", "1.0"));
}

#[test]
fn malformed_parts_count_as_zero() {
    assert!(is_version_newer("v1.x", "v1.1"));
    assert!(!is_version_newer("v1.1", "v1.x"));
    assert!(!is_version_newer("", "x"));
    // a part too large for the scheme also counts as zero
    assert!(!is_version_newer("1.1", "1.99999999999999999999"));
}

#[test]
fn update_response_evaluation() {
    assert_eq!(
        evaluate_update_response("v1.0.0", Some("v1.2.0".to_string())),
        UpdateCheck::UpdateAvailable("v1.2.0".to_string())
    );
    assert_eq!(
        evaluate_update_response("v1.2.0", Some("v1.0.0".to_string())),
        UpdateCheck::UpToDate
    );
    assert_eq!(evaluate_update_response("v1.0.0", None), UpdateCheck::InvalidResponse);
}

#[test]
fn settings_defaults_and_sanitizing() {
    let d = AppSettings::default();
    assert!(d.enable_auto_update);
    assert_eq!(d.preview_quality, default_preview_quality());
    let ok = AppSettings { enable_auto_update: false, preview_quality: 3 };
    assert_eq!(ok.sanitized(), ok);
    let bad = AppSettings { enable_auto_update: false, preview_quality: 9 };
    let fixed = bad.sanitized();
    assert_eq!(fixed.preview_quality, 2);
    assert!(!fixed.enable_auto_update);
}

#[test]
fn monitor_index_clamps_to_the_first_monitor() {
    assert_eq!(clamp_monitor_index(1, 3), 1);
    assert_eq!(clamp_monitor_index(3, 3), 0);
    assert_eq!(clamp_monitor_index(0, 0), 0);
}
