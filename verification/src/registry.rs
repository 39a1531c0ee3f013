//! The window-state registry: the host's cache of discovered top-level
//! windows, their last-known toggle state, and the auto-hide policy
//! applied when a window is first observed.

use vstd::prelude::*;
use crate::actions::InjectionAction;
use crate::text::{is_substring, lower_of, to_lower, contains_str};

verus! {

/// One tracked top-level window: its externally owned handle, owning
/// process, title, and the host's belief about its two toggles.
pub struct AppWindow {
    pub hwnd: u64,
    pub pid: u32,
    pub title: String,
    pub is_taskbar_hidden: bool,
    pub is_capture_hidden: bool,
}

/// One window as a fresh enumeration pass reports it.
pub struct WindowObs {
    pub hwnd: u64,
    pub pid: u32,
    pub title: String,
}

/// Which of a window's two toggles an operation addresses.
#[derive(Clone, Copy, PartialEq, Eq, Structural, Debug)]
pub enum ToggleKind {
    Capture,
    Taskbar,
}

/// One injection the registry asks the surrounding code to perform.
#[derive(Clone, Copy, PartialEq, Eq, Structural, Debug)]
pub struct InjectionRequest {
    pub pid: u32,
    pub action: InjectionAction,
}

/// A non-empty pattern occurs case-insensitively in the title.
pub open spec fn pattern_matches(title: Seq<char>, pat: Seq<char>) -> bool {
    pat.len() > 0 && is_substring(lower_of(pat), lower_of(title))
}

/// Some non-empty pattern of the list matches the title.
pub open spec fn matches_any(title: Seq<char>, pats: Seq<String>) -> bool {
    exists|j: int| 0 <= j < pats.len() && pattern_matches(title, pats[j]@)
}

/// Decides the auto-hide policy for a title: some non-empty configured
/// pattern is a case-insensitive substring of it.
pub fn should_auto_hide(title: &str, patterns: &Vec<String>) -> (r: bool)
    ensures
        r == matches_any(title@, patterns@),
{
    let lowered_title = to_lower(title);
    let n = patterns.len();
    let mut j: usize = 0;
    while j < n
        invariant
            n == patterns@.len(),
            0 <= j <= n,
            lowered_title@ == lower_of(title@),
            forall|k: int| 0 <= k < j ==> !pattern_matches(title@, patterns@[k]@),
        decreases n - j,
    {
        let pat = &patterns[j];
        if !pat.as_str().is_empty() {
            let lowered_pat = to_lower(pat.as_str());
            if contains_str(lowered_title.as_str(), lowered_pat.as_str()) {
                return true;
            }
        }
        j = j + 1;
    }
    false
}

/// Whether some window in the cache carries this handle.
pub open spec fn has_handle(ws: Seq<AppWindow>, hwnd: u64) -> bool {
    exists|i: int| 0 <= i < ws.len() && ws[i].hwnd == hwnd
}

/// The first cache index carrying this handle, or -1.
pub open spec fn first_index(ws: Seq<AppWindow>, hwnd: u64) -> int
    decreases ws.len(),
{
    if ws.len() == 0 {
        -1
    } else if ws[0].hwnd == hwnd {
        0
    } else {
        let r = first_index(ws.drop_first(), hwnd);
        if r < 0 {
            -1
        } else {
            r + 1
        }
    }
}

/// `first_index` finds the first occurrence of a present handle.
pub proof fn lemma_first_index(ws: Seq<AppWindow>, hwnd: u64)
    requires
        has_handle(ws, hwnd),
    ensures
        0 <= first_index(ws, hwnd) < ws.len(),
        ws[first_index(ws, hwnd)].hwnd == hwnd,
        forall|j: int| 0 <= j < first_index(ws, hwnd) ==> ws[j].hwnd != hwnd,
    decreases ws.len(),
{
    if ws.len() > 0 && ws[0].hwnd != hwnd {
        let rest = ws.drop_first();
        assert(has_handle(rest, hwnd)) by {
            let i = choose|i: int| 0 <= i < ws.len() && ws[i].hwnd == hwnd;
            assert(rest[i - 1] == ws[i]);
        }
        lemma_first_index(rest, hwnd);
        assert forall|j: int| 0 <= j < first_index(ws, hwnd) implies ws[j].hwnd != hwnd by {
            if j > 0 {
                assert(rest[j - 1] == ws[j]);
            }
        }
    }
}

/// What the refresh merge leaves in the cache for one observed window:
/// a window already tracked keeps its flags untouched; a window seen for
/// the first time is evaluated against the auto-hide list, exactly once.
pub open spec fn merge_one(old: Seq<AppWindow>, obs: WindowObs, pats: Seq<String>) -> AppWindow {
    if has_handle(old, obs.hwnd) {
        let k = first_index(old, obs.hwnd);
        AppWindow {
            hwnd: obs.hwnd,
            pid: obs.pid,
            title: obs.title,
            is_taskbar_hidden: old[k].is_taskbar_hidden,
            is_capture_hidden: old[k].is_capture_hidden,
        }
    } else {
        let m = matches_any(obs.title@, pats);
        AppWindow {
            hwnd: obs.hwnd,
            pid: obs.pid,
            title: obs.title,
            is_taskbar_hidden: m,
            is_capture_hidden: m,
        }
    }
}

/// The whole merged cache after a refresh, in enumeration order.
pub open spec fn merged_spec(
    old: Seq<AppWindow>,
    new: Seq<WindowObs>,
    pats: Seq<String>,
) -> Seq<AppWindow> {
    Seq::new(new.len(), |i: int| merge_one(old, new[i], pats))
}

/// The injections a refresh asks for on behalf of one observed window:
/// a newly seen window that matches the auto-hide list gets a taskbar
/// hide and then a capture hide; every other window gets nothing.
pub open spec fn requests_for(
    old: Seq<AppWindow>,
    obs: WindowObs,
    pats: Seq<String>,
) -> Seq<InjectionRequest> {
    if !has_handle(old, obs.hwnd) && matches_any(obs.title@, pats) {
        seq![
            InjectionRequest { pid: obs.pid, action: InjectionAction::HideTaskbar },
            InjectionRequest { pid: obs.pid, action: InjectionAction::HideCapture },
        ]
    } else {
        Seq::empty()
    }
}

/// All injections a refresh asks for, in enumeration order.
pub open spec fn requests_spec(
    old: Seq<AppWindow>,
    new: Seq<WindowObs>,
    pats: Seq<String>,
) -> Seq<InjectionRequest>
    decreases new.len(),
{
    if new.len() == 0 {
        Seq::empty()
    } else {
        requests_spec(old, new.drop_last(), pats) + requests_for(old, new.last(), pats)
    }
}

/// Returns the first cache index holding the handle, if any.
fn find_by_handle(ws: &Vec<AppWindow>, hwnd: u64) -> (r: Option<usize>)
    ensures
        match r {
            Some(k) => {
                &&& has_handle(ws@, hwnd)
                &&& k as int == first_index(ws@, hwnd)
                &&& 0 <= k < ws@.len()
                &&& ws@[k as int].hwnd == hwnd
            },
            None => !has_handle(ws@, hwnd),
        },
{
    let n = ws.len();
    let mut i: usize = 0;
    while i < n
        invariant
            n == ws@.len(),
            0 <= i <= n,
            forall|j: int| 0 <= j < i ==> ws@[j].hwnd != hwnd,
        decreases n - i,
    {
        if ws[i].hwnd == hwnd {
            proof {
                lemma_first_index(ws@, hwnd);
                let fi = first_index(ws@, hwnd);
                if fi < i {
                    assert(ws@[fi].hwnd != hwnd);
                }
                if fi > i {
                    assert(ws@[i as int].hwnd != hwnd);
                }
            }
            return Some(i);
        }
        i = i + 1;
    }
    proof {
        if has_handle(ws@, hwnd) {
            let k = choose|k: int| 0 <= k < ws@.len() && ws@[k].hwnd == hwnd;
            assert(ws@[k].hwnd != hwnd);
        }
    }
    None
}

/// The host-resident window-state registry: the cached snapshot and the
/// configured auto-hide pattern list.
pub struct Registry {
    pub windows: Vec<AppWindow>,
    pub patterns: Vec<String>,
}

impl Registry {
    /// An empty registry with the given auto-hide patterns.
    pub fn new(patterns: Vec<String>) -> (r: Registry)
        ensures
            r.windows@.len() == 0,
            r.patterns == patterns,
    {
        Registry { windows: Vec::new(), patterns }
    }

    /// Replaces the auto-hide pattern list.
    pub fn set_patterns(&mut self, patterns: Vec<String>)
        ensures
            final(self).patterns == patterns,
            final(self).windows == old(self).windows,
    {
        self.patterns = patterns;
    }

    /// Merges a fresh enumeration pass into the cache. Windows already
    /// tracked keep their toggle flags; windows seen for the first time
    /// are evaluated against the auto-hide list exactly once, and the
    /// returned requests ask the caller to perform those injections.
    pub fn refresh(&mut self, new: Vec<WindowObs>) -> (reqs: Vec<InjectionRequest>)
        ensures
            final(self).windows@ == merged_spec(old(self).windows@, new@, old(self).patterns@),
            final(self).patterns == old(self).patterns,
            reqs@ == requests_spec(old(self).windows@, new@, old(self).patterns@),
    {
        let ghost old_windows = self.windows@;
        let ghost pats = self.patterns@;
        let mut merged: Vec<AppWindow> = Vec::new();
        let mut reqs: Vec<InjectionRequest> = Vec::new();
        let n = new.len();
        let mut i: usize = 0;
        proof {
            assert(new@.take(0) =~= Seq::<WindowObs>::empty());
        }
        while i < n
            invariant
                n == new@.len(),
                0 <= i <= n,
                self.windows@ == old_windows,
                self.patterns@ == pats,
                merged@.len() == i,
                forall|k: int| 0 <= k < i ==> merged@[k] == merged_spec(old_windows, new@, pats)[k],
                reqs@ == requests_spec(old_windows, new@.take(i as int), pats),
            decreases n - i,
        {
            let obs = &new[i];
            let found = find_by_handle(&self.windows, obs.hwnd);
            match found {
                Some(k) => {
                    let prior_taskbar = self.windows[k].is_taskbar_hidden;
                    let prior_capture = self.windows[k].is_capture_hidden;
                    proof {
                        lemma_first_index(old_windows, obs.hwnd);
                    }
                    merged.push(
                        AppWindow {
                            hwnd: obs.hwnd,
                            pid: obs.pid,
                            title: obs.title.clone(),
                            is_taskbar_hidden: prior_taskbar,
                            is_capture_hidden: prior_capture,
                        },
                    );
                },
                None => {
                    let hide = should_auto_hide(obs.title.as_str(), &self.patterns);
                    if hide {
                        reqs.push(
                            InjectionRequest { pid: obs.pid, action: InjectionAction::HideTaskbar },
                        );
                        reqs.push(
                            InjectionRequest { pid: obs.pid, action: InjectionAction::HideCapture },
                        );
                    }
                    merged.push(
                        AppWindow {
                            hwnd: obs.hwnd,
                            pid: obs.pid,
                            title: obs.title.clone(),
                            is_taskbar_hidden: hide,
                            is_capture_hidden: hide,
                        },
                    );
                },
            }
            proof {
                assert(new@.take(i + 1).drop_last() =~= new@.take(i as int));
                assert(new@.take(i + 1).last() == new@[i as int]);
                assert(merged@[i as int] == merge_one(old_windows, new@[i as int], pats));
                assert(reqs@ =~= requests_spec(old_windows, new@.take(i + 1), pats));
            }
            i = i + 1;
        }
        proof {
            assert(new@.take(n as int) =~= new@);
            assert(merged@ =~= merged_spec(old_windows, new@, pats));
        }
        self.windows = merged;
        reqs
    }

    /// The inverse-toggle injection for a tracked window, or nothing for
    /// a handle the registry does not track.
    pub fn plan_toggle(&self, hwnd: u64, kind: ToggleKind) -> (r: Option<InjectionRequest>)
        ensures
            r == plan_toggle_spec(self.windows@, hwnd, kind),
    {
        let found = find_by_handle(&self.windows, hwnd);
        proof {
            if has_handle(self.windows@, hwnd) {
                lemma_first_index(self.windows@, hwnd);
            }
        }
        match found {
            None => None,
            Some(k) => {
                let w = &self.windows[k];
                let action = match kind {
                    ToggleKind::Capture => {
                        if w.is_capture_hidden {
                            InjectionAction::ShowCapture
                        } else {
                            InjectionAction::HideCapture
                        }
                    },
                    ToggleKind::Taskbar => {
                        if w.is_taskbar_hidden {
                            InjectionAction::ShowTaskbar
                        } else {
                            InjectionAction::HideTaskbar
                        }
                    },
                };
                Some(InjectionRequest { pid: w.pid, action })
            },
        }
    }

    /// Sets one toggle flag of the first tracked window carrying the
    /// handle; does nothing for an untracked handle.
    pub fn mark_toggled(&mut self, hwnd: u64, kind: ToggleKind, value: bool)
        ensures
            final(self).windows@ == marked_spec(old(self).windows@, hwnd, kind, value),
            final(self).patterns == old(self).patterns,
    {
        let found = find_by_handle(&self.windows, hwnd);
        proof {
            if has_handle(self.windows@, hwnd) {
                lemma_first_index(self.windows@, hwnd);
            }
        }
        match found {
            None => {},
            Some(k) => {
                let w = &self.windows[k];
                let updated = match kind {
                    ToggleKind::Capture => AppWindow {
                        hwnd: w.hwnd,
                        pid: w.pid,
                        title: w.title.clone(),
                        is_taskbar_hidden: w.is_taskbar_hidden,
                        is_capture_hidden: value,
                    },
                    ToggleKind::Taskbar => AppWindow {
                        hwnd: w.hwnd,
                        pid: w.pid,
                        title: w.title.clone(),
                        is_taskbar_hidden: value,
                        is_capture_hidden: w.is_capture_hidden,
                    },
                };
                self.windows.set(k, updated);
                proof {
                    assert(self.windows@ =~= marked_spec(old(self).windows@, hwnd, kind, value));
                }
            },
        }
    }

    /// Applies the outcome of one interactive toggle: on success the
    /// cached flag flips; on failure the cache keeps its prior belief.
    pub fn commit_toggle(&mut self, hwnd: u64, kind: ToggleKind, success: bool)
        ensures
            final(self).windows@ == committed_spec(old(self).windows@, hwnd, kind, success),
            final(self).patterns == old(self).patterns,
    {
        if !success {
            return;
        }
        let found = find_by_handle(&self.windows, hwnd);
        proof {
            if has_handle(self.windows@, hwnd) {
                lemma_first_index(self.windows@, hwnd);
            }
        }
        match found {
            None => {},
            Some(k) => {
                let w = &self.windows[k];
                let updated = match kind {
                    ToggleKind::Capture => AppWindow {
                        hwnd: w.hwnd,
                        pid: w.pid,
                        title: w.title.clone(),
                        is_taskbar_hidden: w.is_taskbar_hidden,
                        is_capture_hidden: !w.is_capture_hidden,
                    },
                    ToggleKind::Taskbar => AppWindow {
                        hwnd: w.hwnd,
                        pid: w.pid,
                        title: w.title.clone(),
                        is_taskbar_hidden: !w.is_taskbar_hidden,
                        is_capture_hidden: w.is_capture_hidden,
                    },
                };
                self.windows.set(k, updated);
                proof {
                    assert(self.windows@ =~= committed_spec(
                        old(self).windows@,
                        hwnd,
                        kind,
                        success,
                    ));
                }
            },
        }
    }
}

/// One toggle flag of one window set to a value.
pub open spec fn set_flag(w: AppWindow, kind: ToggleKind, value: bool) -> AppWindow {
    match kind {
        ToggleKind::Capture => AppWindow { is_capture_hidden: value, ..w },
        ToggleKind::Taskbar => AppWindow { is_taskbar_hidden: value, ..w },
    }
}

/// The cache after `mark_toggled`.
pub open spec fn marked_spec(
    ws: Seq<AppWindow>,
    hwnd: u64,
    kind: ToggleKind,
    value: bool,
) -> Seq<AppWindow> {
    if has_handle(ws, hwnd) {
        let k = first_index(ws, hwnd);
        ws.update(k, set_flag(ws[k], kind, value))
    } else {
        ws
    }
}

/// The cache after `commit_toggle`.
pub open spec fn committed_spec(
    ws: Seq<AppWindow>,
    hwnd: u64,
    kind: ToggleKind,
    success: bool,
) -> Seq<AppWindow> {
    if success && has_handle(ws, hwnd) {
        let k = first_index(ws, hwnd);
        let flag = match kind {
            ToggleKind::Capture => ws[k].is_capture_hidden,
            ToggleKind::Taskbar => ws[k].is_taskbar_hidden,
        };
        ws.update(k, set_flag(ws[k], kind, !flag))
    } else {
        ws
    }
}

/// What `plan_toggle` answers: the inverse of the tracked flag.
pub open spec fn plan_toggle_spec(
    ws: Seq<AppWindow>,
    hwnd: u64,
    kind: ToggleKind,
) -> Option<InjectionRequest> {
    if has_handle(ws, hwnd) {
        let k = first_index(ws, hwnd);
        let action = match kind {
            ToggleKind::Capture => if ws[k].is_capture_hidden {
                InjectionAction::ShowCapture
            } else {
                InjectionAction::HideCapture
            },
            ToggleKind::Taskbar => if ws[k].is_taskbar_hidden {
                InjectionAction::ShowTaskbar
            } else {
                InjectionAction::HideTaskbar
            },
        };
        Some(InjectionRequest { pid: ws[k].pid, action })
    } else {
        None
    }
}

/// State preservation: a window present in both the old cache and the
/// new enumeration keeps its toggle flags unchanged across the refresh.
pub proof fn lemma_refresh_preserves_flags(
    old: Seq<AppWindow>,
    new: Seq<WindowObs>,
    pats: Seq<String>,
    i: int,
)
    requires
        0 <= i < new.len(),
        has_handle(old, new[i].hwnd),
    ensures
        ({
            let k = first_index(old, new[i].hwnd);
            let m = merged_spec(old, new, pats)[i];
            &&& m.hwnd == new[i].hwnd
            &&& m.is_taskbar_hidden == old[k].is_taskbar_hidden
            &&& m.is_capture_hidden == old[k].is_capture_hidden
        }),
        requests_for(old, new[i], pats) =~= Seq::<InjectionRequest>::empty(),
{
    lemma_first_index(old, new[i].hwnd);
}

/// First sight: a window absent from the old cache whose title matches
/// the auto-hide list comes out of the refresh with both flags set, and
/// the refresh asks for exactly two injections for its process: a
/// taskbar hide, then a capture hide.
pub proof fn lemma_auto_hide_first_sight(
    old: Seq<AppWindow>,
    new: Seq<WindowObs>,
    pats: Seq<String>,
    i: int,
)
    requires
        0 <= i < new.len(),
        !has_handle(old, new[i].hwnd),
        matches_any(new[i].title@, pats),
    ensures
        merged_spec(old, new, pats)[i].is_taskbar_hidden,
        merged_spec(old, new, pats)[i].is_capture_hidden,
        requests_for(old, new[i], pats) == seq![
            InjectionRequest { pid: new[i].pid, action: InjectionAction::HideTaskbar },
            InjectionRequest { pid: new[i].pid, action: InjectionAction::HideCapture },
        ],
{
}

/// Auto-hide exactly once: a window auto-hidden when first observed is
/// never evaluated against the pattern list again. On any later refresh
/// in which it is still present, its flags carry over unchanged and no
/// injection is requested for it, even if its title still (or again)
/// matches a pattern.
pub proof fn lemma_auto_hide_exactly_once(
    old: Seq<AppWindow>,
    new1: Seq<WindowObs>,
    new2: Seq<WindowObs>,
    pats1: Seq<String>,
    pats2: Seq<String>,
    i: int,
    j: int,
)
    requires
        0 <= i < new1.len(),
        0 <= j < new2.len(),
        !has_handle(old, new1[i].hwnd),
        matches_any(new1[i].title@, pats1),
        new2[j].hwnd == new1[i].hwnd,
    ensures
        ({
            let mid = merged_spec(old, new1, pats1);
            let k = first_index(mid, new2[j].hwnd);
            &&& merged_spec(mid, new2, pats2)[j].is_taskbar_hidden == mid[k].is_taskbar_hidden
            &&& merged_spec(mid, new2, pats2)[j].is_capture_hidden == mid[k].is_capture_hidden
            &&& requests_for(mid, new2[j], pats2) =~= Seq::<InjectionRequest>::empty()
        }),
{
    let mid = merged_spec(old, new1, pats1);
    lemma_auto_hide_first_sight(old, new1, pats1, i);
    assert(mid[i].hwnd == new1[i].hwnd);
    assert(has_handle(mid, new2[j].hwnd));
    lemma_refresh_preserves_flags(mid, new2, pats2, j);
}

/// Titles the enumeration pass never lists: fixed shell surfaces, and
/// this tool's own window.
pub open spec fn ignored_title(t: Seq<char>) -> bool {
    ||| t == "Program Manager"@
    ||| t == "Settings"@
    ||| t == "Microsoft Text Input Application"@
    ||| t == "WinHider"@
}

/// Decides whether an enumerated top-level window belongs in the
/// registry: it must be visible, titled, and not on the fixed ignore
/// list.
pub fn should_list_window(visible: bool, title: &str) -> (r: bool)
    ensures
        r == (visible && title@.len() > 0 && !ignored_title(title@)),
{
    if !visible {
        return false;
    }
    if title.unicode_len() == 0 {
        return false;
    }
    let t = String::from_str(title);
    let ignored = t == String::from_str("Program Manager") || t == String::from_str("Settings")
        || t == String::from_str("Microsoft Text Input Application") || t == String::from_str(
        "WinHider",
    );
    !ignored
}

/// A refresh in which no observed window is both newly seen and
/// matching asks for no injections at all.
pub proof fn lemma_requests_empty(old: Seq<AppWindow>, new: Seq<WindowObs>, pats: Seq<String>)
    requires
        forall|j: int|
            0 <= j < new.len() ==> has_handle(old, (#[trigger] new[j]).hwnd) || !matches_any(
                new[j].title@,
                pats,
            ),
    ensures
        requests_spec(old, new, pats) =~= Seq::<InjectionRequest>::empty(),
    decreases new.len(),
{
    if new.len() > 0 {
        let front = new.drop_last();
        assert forall|j: int|
            0 <= j < front.len() implies has_handle(old, (#[trigger] front[j]).hwnd)
            || !matches_any(front[j].title@, pats) by {
            assert(front[j] == new[j]);
        }
        lemma_requests_empty(old, front, pats);
        assert(new.last() == new[new.len() - 1]);
        assert(requests_for(old, new.last(), pats) =~= Seq::<InjectionRequest>::empty());
    }
}

/// Auto-hide asks for exactly two injections: when exactly one observed
/// window is newly seen and matches the pattern list, the whole refresh
/// requests precisely a taskbar hide and then a capture hide for that
/// window's owning process, and nothing else.
pub proof fn lemma_auto_hide_requests_exact(
    old: Seq<AppWindow>,
    new: Seq<WindowObs>,
    pats: Seq<String>,
    i: int,
)
    requires
        0 <= i < new.len(),
        !has_handle(old, new[i].hwnd),
        matches_any(new[i].title@, pats),
        forall|j: int|
            0 <= j < new.len() && j != i ==> has_handle(old, (#[trigger] new[j]).hwnd)
                || !matches_any(new[j].title@, pats),
    ensures
        requests_spec(old, new, pats) =~= seq![
            InjectionRequest { pid: new[i].pid, action: InjectionAction::HideTaskbar },
            InjectionRequest { pid: new[i].pid, action: InjectionAction::HideCapture },
        ],
    decreases new.len(),
{
    let front = new.drop_last();
    assert(new.last() == new[new.len() - 1]);
    if i == new.len() - 1 {
        assert forall|j: int|
            0 <= j < front.len() implies has_handle(old, (#[trigger] front[j]).hwnd)
            || !matches_any(front[j].title@, pats) by {
            assert(front[j] == new[j]);
        }
        lemma_requests_empty(old, front, pats);
    } else {
        assert(front[i] == new[i]);
        assert forall|j: int|
            0 <= j < front.len() && j != i implies has_handle(old, (#[trigger] front[j]).hwnd)
            || !matches_any(front[j].title@, pats) by {
            assert(front[j] == new[j]);
        }
        lemma_auto_hide_requests_exact(old, front, pats, i);
        assert(requests_for(old, new.last(), pats) =~= Seq::<InjectionRequest>::empty());
    }
}

} // verus!
