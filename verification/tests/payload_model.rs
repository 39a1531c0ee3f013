use winhider::actions::InjectionAction;
use winhider::artifact::decode_actions;
use winhider::winstyle::{
    CaptureAffinity, PayloadWindow, WindowAttrs, WS_EX_APPWINDOW, WS_EX_TOOLWINDOW, apply_action,
    apply_decoded, apply_stealth_pass, taskbar_style_update,
};

fn plain_attrs() -> WindowAttrs {
    WindowAttrs { affinity: CaptureAffinity::Visible, ex_style: WS_EX_APPWINDOW | 0x100 }
}

#[test]
fn hide_then_show_capture_restores_an_unhidden_window() {
    let w = plain_attrs();
    let hidden = apply_action(InjectionAction::HideCapture, w);
    assert_eq!(hidden.affinity, CaptureAffinity::Excluded);
    let restored = apply_action(InjectionAction::ShowCapture, hidden);
    assert_eq!(restored, w);
}

#[test]
fn hide_then_show_taskbar_restores_an_unhidden_window() {
    let w = plain_attrs();
    let hidden = apply_action(InjectionAction::HideTaskbar, w);
    assert_eq!(hidden.ex_style & WS_EX_TOOLWINDOW, WS_EX_TOOLWINDOW);
    assert_eq!(hidden.ex_style & WS_EX_APPWINDOW, 0);
    let restored = apply_action(InjectionAction::ShowTaskbar, hidden);
    assert_eq!(restored, w);
}

#[test]
fn style_updates_set_exactly_the_two_bits() {
    assert_eq!(taskbar_style_update(WS_EX_APPWINDOW, true), WS_EX_TOOLWINDOW);
    assert_eq!(taskbar_style_update(WS_EX_TOOLWINDOW, false), WS_EX_APPWINDOW);
    // unrelated bits survive both directions
    assert_eq!(taskbar_style_update(0x40100, true), 0x180);
    assert_eq!(taskbar_style_update(0x180, false), 0x40100);
}

#[test]
fn pass_touches_only_visible_windows_of_its_own_process() {
    let own_visible = PayloadWindow { pid: 1, visible: true, attrs: plain_attrs() };
    let other_visible = PayloadWindow { pid: 2, visible: true, attrs: plain_attrs() };
    let own_invisible = PayloadWindow { pid: 1, visible: false, attrs: plain_attrs() };
    let d = decode_actions("mozavcodec_1.dll");
    let out = apply_stealth_pass(&vec![own_visible, other_visible, own_invisible], 1, d);
    assert_eq!(out.len(), 3);
    assert_eq!(out[0].attrs.affinity, CaptureAffinity::Excluded);
    assert_eq!(out[1], other_visible);
    assert_eq!(out[2], own_invisible);
}

#[test]
fn decoded_taskbar_hide_applies_through_the_pass() {
    let d = decode_actions("C:\\apps\\gkcodecs_9.dll");
    let out = apply_decoded(d, plain_attrs());
    assert_eq!(out.affinity, CaptureAffinity::Visible);
    assert_eq!(out.ex_style & WS_EX_TOOLWINDOW, WS_EX_TOOLWINDOW);
    assert_eq!(out.ex_style & WS_EX_APPWINDOW, 0);
}

#[test]
fn a_decode_with_no_tokens_changes_nothing() {
    let d = decode_actions("kernel32.dll");
    let w = plain_attrs();
    assert_eq!(apply_decoded(d, w), w);
}
