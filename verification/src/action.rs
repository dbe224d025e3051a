//! The actions that drive the home page.

use vstd::prelude::*;

verus! {

/// What the home page or one of its panes is asked to do.
#[derive(Clone, Copy, Debug, PartialEq, Eq, Structural)]
pub enum Action {
    /// Periodic refresh hook; the home page ignores it.
    Tick,
    /// Move the focus to the pane after the focused one.
    FocusNext,
    /// Move the focus to the pane before the focused one.
    FocusPrev,
    /// Refresh signal that every pane observes.
    Update,
    /// Give the whole content area to the focused pane, or give it back.
    ToggleFullScreen,
    Down,
    Up,
    Go,
    Back,
    Submit,
    /// Select a tab of the focused pane, counted from zero.
    Tab(u32),
}

/// An action produced by a key, with the word on whether handlers further out
/// may still interpret the key.
#[derive(Debug, PartialEq, Eq, Structural)]
pub enum EventResponse<A> {
    /// Outer handlers may interpret the key as well.
    Continue(A),
    /// The key is used up.
    Stop(A),
}

} // verus!
