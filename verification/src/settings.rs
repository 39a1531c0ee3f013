//! The persisted application settings and small user-interface
//! decisions around them.

use vstd::prelude::*;

verus! {

/// The preview quality used when none is stored.
pub fn default_preview_quality() -> (q: u32)
    ensures
        q == 2,
{
    2
}

/// The persisted settings record: whether updates are checked on start,
/// and the preview quality level.
#[derive(Clone, Copy, PartialEq, Eq, Structural, Debug)]
pub struct AppSettings {
    pub enable_auto_update: bool,
    pub preview_quality: u32,
}

impl AppSettings {
    /// A settings record is valid when its quality level is one of the
    /// three offered.
    pub open spec fn valid(self) -> bool {
        1 <= self.preview_quality <= 3
    }

    /// A valid record passes through unchanged; any out-of-range
    /// quality level falls back to the default.
    pub fn sanitized(self) -> (r: AppSettings)
        ensures
            r.enable_auto_update == self.enable_auto_update,
            self.valid() ==> r == self,
            r.valid(),
    {
        if self.preview_quality >= 1 && self.preview_quality <= 3 {
            self
        } else {
            AppSettings { preview_quality: default_preview_quality(), ..self }
        }
    }
}

impl Default for AppSettings {
    /// The settings used when none are stored: updates checked, medium
    /// preview quality.
    fn default() -> (r: AppSettings)
        ensures
            r.enable_auto_update == true,
            r.preview_quality == 2,
            r.valid(),
    {
        AppSettings { enable_auto_update: true, preview_quality: 2 }
    }
}

/// The monitor a capture session uses: the selected index when it still
/// names a monitor, the first monitor otherwise.
pub fn clamp_monitor_index(selected: usize, count: usize) -> (r: usize)
    ensures
        selected < count ==> r == selected,
        selected >= count ==> r == 0,
{
    if selected < count {
        selected
    } else {
        0
    }
}

} // verus!
