//! The model of what the payload does to a window: capture affinity and
//! the extended style bits that control taskbar presence.

use vstd::prelude::*;
use crate::actions::InjectionAction;
use crate::artifact::DecodedActions;

verus! {

/// The extended style bit that marks a tool window, kept out of the
/// taskbar and the window switcher.
pub const WS_EX_TOOLWINDOW: u32 = 0x80;

/// The extended style bit that forces a window onto the taskbar.
pub const WS_EX_APPWINDOW: u32 = 0x40000;

/// A window's capture affinity: visible to capture pipelines, or
/// excluded from their output.
#[derive(Clone, Copy, PartialEq, Eq, Structural, Debug)]
pub enum CaptureAffinity {
    Visible,
    Excluded,
}

/// The attributes of one window that the payload mutates.
#[derive(Clone, Copy, PartialEq, Eq, Structural, Debug)]
pub struct WindowAttrs {
    pub affinity: CaptureAffinity,
    pub ex_style: u32,
}

/// The extended style after hiding a window from the taskbar: the
/// app-window bit cleared, the tool-window bit set.
pub open spec fn hide_taskbar_style(style: u32) -> u32 {
    (style & !WS_EX_APPWINDOW) | WS_EX_TOOLWINDOW
}

/// The extended style after restoring a window to the taskbar: the
/// tool-window bit cleared, the app-window bit set.
pub open spec fn show_taskbar_style(style: u32) -> u32 {
    (style & !WS_EX_TOOLWINDOW) | WS_EX_APPWINDOW
}

/// One action applied to one window's attributes.
pub open spec fn apply_action_spec(a: InjectionAction, w: WindowAttrs) -> WindowAttrs {
    match a {
        InjectionAction::HideCapture => WindowAttrs {
            affinity: CaptureAffinity::Excluded,
            ..w
        },
        InjectionAction::ShowCapture => WindowAttrs { affinity: CaptureAffinity::Visible, ..w },
        InjectionAction::HideTaskbar => WindowAttrs { ex_style: hide_taskbar_style(w.ex_style), ..w },
        InjectionAction::ShowTaskbar => WindowAttrs { ex_style: show_taskbar_style(w.ex_style), ..w },
    }
}

/// Computes the new extended style for a taskbar visibility change.
pub fn taskbar_style_update(style: u32, hide: bool) -> (r: u32)
    ensures
        hide ==> r == hide_taskbar_style(style),
        !hide ==> r == show_taskbar_style(style),
{
    if hide {
        (style & !WS_EX_APPWINDOW) | WS_EX_TOOLWINDOW
    } else {
        (style & !WS_EX_TOOLWINDOW) | WS_EX_APPWINDOW
    }
}

/// Applies one action to one window's attributes.
pub fn apply_action(a: InjectionAction, w: WindowAttrs) -> (r: WindowAttrs)
    ensures
        r == apply_action_spec(a, w),
{
    match a {
        InjectionAction::HideCapture => WindowAttrs {
            affinity: CaptureAffinity::Excluded,
            ..w
        },
        InjectionAction::ShowCapture => WindowAttrs { affinity: CaptureAffinity::Visible, ..w },
        InjectionAction::HideTaskbar => WindowAttrs {
            ex_style: taskbar_style_update(w.ex_style, true),
            ..w
        },
        InjectionAction::ShowTaskbar => WindowAttrs {
            ex_style: taskbar_style_update(w.ex_style, false),
            ..w
        },
    }
}

/// Hiding a window from capture and then showing it again restores the
/// attributes it had, for every window not already hidden from capture.
pub proof fn lemma_capture_round_trip(w: WindowAttrs)
    requires
        w.affinity is Visible,
    ensures
        apply_action_spec(
            InjectionAction::ShowCapture,
            apply_action_spec(InjectionAction::HideCapture, w),
        ) == w,
{
}

/// Hiding a window from the taskbar and then showing it again restores
/// the attributes it had, for every window whose style was the normal
/// app-window shape.
pub proof fn lemma_taskbar_round_trip(w: WindowAttrs)
    requires
        w.ex_style & WS_EX_APPWINDOW == WS_EX_APPWINDOW,
        w.ex_style & WS_EX_TOOLWINDOW == 0,
    ensures
        apply_action_spec(
            InjectionAction::ShowTaskbar,
            apply_action_spec(InjectionAction::HideTaskbar, w),
        ) == w,
{
    let s = w.ex_style;
    assert(s & WS_EX_APPWINDOW == WS_EX_APPWINDOW && s & WS_EX_TOOLWINDOW == 0 ==> ((s
        & !WS_EX_APPWINDOW | WS_EX_TOOLWINDOW) & !WS_EX_TOOLWINDOW | WS_EX_APPWINDOW) == s)
        by (bit_vector);
}

/// Whatever state a window starts in, a hide followed by the matching
/// show leaves it exactly as a plain show would: the pair never
/// accumulates state.
pub proof fn lemma_hide_show_normalizes(w: WindowAttrs)
    ensures
        apply_action_spec(
            InjectionAction::ShowCapture,
            apply_action_spec(InjectionAction::HideCapture, w),
        ) == apply_action_spec(InjectionAction::ShowCapture, w),
        apply_action_spec(
            InjectionAction::ShowTaskbar,
            apply_action_spec(InjectionAction::HideTaskbar, w),
        ) == apply_action_spec(InjectionAction::ShowTaskbar, w),
{
    let s = w.ex_style;
    assert(((s & !WS_EX_APPWINDOW | WS_EX_TOOLWINDOW) & !WS_EX_TOOLWINDOW | WS_EX_APPWINDOW) == (s
        & !WS_EX_TOOLWINDOW | WS_EX_APPWINDOW)) by (bit_vector);
}

/// One top-level window as the payload's enumeration pass sees it.
#[derive(Clone, Copy, PartialEq, Eq, Structural, Debug)]
pub struct PayloadWindow {
    pub pid: u32,
    pub visible: bool,
    pub attrs: WindowAttrs,
}

/// The windows the payload may touch: those owned by the process it runs
/// inside, and currently visible.
pub open spec fn payload_touches(w: PayloadWindow, current_pid: u32) -> bool {
    w.pid == current_pid && w.visible
}

/// The decoded actions applied to one window, in the payload's fixed
/// order: capture exclusion, capture reset, taskbar hide, taskbar show.
pub open spec fn apply_decoded_spec(d: DecodedActions, w: WindowAttrs) -> WindowAttrs {
    let w1 = if d.hide_capture {
        apply_action_spec(InjectionAction::HideCapture, w)
    } else {
        w
    };
    let w2 = if d.show_capture {
        apply_action_spec(InjectionAction::ShowCapture, w1)
    } else {
        w1
    };
    let w3 = if d.hide_taskbar {
        apply_action_spec(InjectionAction::HideTaskbar, w2)
    } else {
        w2
    };
    if d.show_taskbar {
        apply_action_spec(InjectionAction::ShowTaskbar, w3)
    } else {
        w3
    }
}

/// What one whole payload pass leaves behind: windows of the payload's
/// own process that are visible get the decoded actions; every other
/// window is left exactly as it was.
pub open spec fn stealth_pass_spec(
    ws: Seq<PayloadWindow>,
    current_pid: u32,
    d: DecodedActions,
) -> Seq<PayloadWindow> {
    Seq::new(
        ws.len(),
        |i: int|
            if payload_touches(ws[i], current_pid) {
                PayloadWindow { attrs: apply_decoded_spec(d, ws[i].attrs), ..ws[i] }
            } else {
                ws[i]
            },
    )
}

/// Applies the decoded actions to one window, if it qualifies.
pub fn apply_decoded(d: DecodedActions, w: WindowAttrs) -> (r: WindowAttrs)
    ensures
        r == apply_decoded_spec(d, w),
{
    let mut cur = w;
    if d.hide_capture {
        cur = apply_action(InjectionAction::HideCapture, cur);
    }
    if d.show_capture {
        cur = apply_action(InjectionAction::ShowCapture, cur);
    }
    if d.hide_taskbar {
        cur = apply_action(InjectionAction::HideTaskbar, cur);
    }
    if d.show_taskbar {
        cur = apply_action(InjectionAction::ShowTaskbar, cur);
    }
    cur
}

/// One payload pass over an enumeration snapshot: mutates only windows
/// of the payload's own process, as `stealth_pass_spec` says.
pub fn apply_stealth_pass(
    windows: &Vec<PayloadWindow>,
    current_pid: u32,
    d: DecodedActions,
) -> (out: Vec<PayloadWindow>)
    ensures
        out@ == stealth_pass_spec(windows@, current_pid, d),
{
    let mut out: Vec<PayloadWindow> = Vec::new();
    let n = windows.len();
    let mut i: usize = 0;
    while i < n
        invariant
            n == windows@.len(),
            0 <= i <= n,
            out@.len() == i,
            forall|k: int|
                0 <= k < i ==> out@[k] == stealth_pass_spec(windows@, current_pid, d)[k],
        decreases n - i,
    {
        let w = windows[i];
        if w.pid == current_pid && w.visible {
            out.push(PayloadWindow { pid: w.pid, visible: w.visible, attrs: apply_decoded(d, w.attrs) });
        } else {
            out.push(w);
        }
        i = i + 1;
    }
    proof {
        assert(out@ =~= stealth_pass_spec(windows@, current_pid, d));
    }
    out
}

/// Self-containment: a payload pass never alters a window that belongs
/// to a different process, however it is enumerated, and never alters an
/// invisible window.
pub proof fn lemma_payload_self_containment(
    ws: Seq<PayloadWindow>,
    current_pid: u32,
    d: DecodedActions,
    i: int,
)
    requires
        0 <= i < ws.len(),
        !payload_touches(ws[i], current_pid),
    ensures
        stealth_pass_spec(ws, current_pid, d)[i] == ws[i],
{
}

} // verus!
