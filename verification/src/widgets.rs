//! Plain parts of the editor's widgets: the click handler a button
//! controller holds, and the orientation of a split pane.

use vstd::prelude::*;

verus! {

/// Controller for button click handling: holds the handler that a click
/// on the button runs.
pub struct ButtonController<F> {
    callback: F,
}

impl<F> ButtonController<F> {
    /// The handler the controller runs on a click.
    pub closed spec fn handler(&self) -> F {
        self.callback
    }

    pub fn new(callback: F) -> (r: Self)
        ensures
            r.handler() == callback,
    {
        ButtonController { callback }
    }

    /// The click handler.
    pub fn callback(&self) -> (r: &F)
        ensures
            *r == self.handler(),
    {
        &self.callback
    }
}

/// Orientation of a split pane: side by side, or one above the other.
#[derive(Clone, Copy, Debug, PartialEq, Eq, Structural)]
pub enum SplitDirection {
    Horizontal,
    Vertical,
}

} // verus!
