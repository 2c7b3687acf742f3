use vstd::prelude::*;

verus! {

/// Whether the main window is currently shown. The window starts out visible.
pub struct AppState {
    window_visible: bool,
}

impl AppState {
    pub closed spec fn visible(&self) -> bool {
        self.window_visible
    }

    /// A fresh state: the window is visible.
    pub fn new() -> (s: AppState)
        ensures
            s.visible(),
    {
        AppState { window_visible: true }
    }
}

/// Records whether the main window is shown.
pub fn set_window_visible(state: &mut AppState, v: bool)
    ensures
        final(state).visible() == v,
{
    state.window_visible = v;
}

/// Reports whether the main window is shown.
pub fn is_window_visible(state: &AppState) -> (v: bool)
    ensures
        v == state.visible(),
{
    state.window_visible
}

} // verus!
