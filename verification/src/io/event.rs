//! What the input trackers read of a platform event.

use vstd::prelude::*;

verus! {

/// Whether a key or a button went down or came up.
#[derive(Clone, Copy, Debug, PartialEq, Eq, Structural)]
pub enum ElementState {
    Pressed,
    Released,
}

/// A button of the pointing device, as the windowing backend names it.
#[derive(Clone, Copy, Debug, PartialEq, Eq, Structural)]
pub enum MouseButton {
    Left,
    Right,
    Middle,
    Other(u16),
}

/// The number of button slots that [`crate::io::mouse::Mouse`] tracks.
pub const BUTTON_SLOTS: usize = 10;

impl MouseButton {
    /// The slot a button is tracked in: 0 for the left button, 1 for the
    /// middle one, 2 for the right one, and `n` for `Other(n)` while `n` is
    /// below [`BUTTON_SLOTS`]. Any other button has no slot.
    pub open spec fn spec_slot(self) -> Option<usize> {
        match self {
            MouseButton::Left => Some(0usize),
            MouseButton::Middle => Some(1usize),
            MouseButton::Right => Some(2usize),
            MouseButton::Other(n) => if n < BUTTON_SLOTS {
                Some(n as usize)
            } else {
                None
            },
        }
    }

    /// Computes [`Self::spec_slot`].
    #[verifier::when_used_as_spec(spec_slot)]
    pub fn slot(self) -> (slot: Option<usize>)
        ensures
            slot == self.spec_slot(),
            slot matches Some(s) ==> s < BUTTON_SLOTS,
    {
        match self {
            MouseButton::Left => Some(0),
            MouseButton::Middle => Some(1),
            MouseButton::Right => Some(2),
            MouseButton::Other(n) => if n < 10 {
                Some(n as usize)
            } else {
                None
            },
        }
    }
}

/// A platform event, reduced to what the trackers act on.
///
/// Coordinates are whole pixels. A key that the backend could not name
/// carries `None`.
#[derive(Clone, Copy, Debug, PartialEq, Eq, Structural)]
pub enum InputEvent {
    /// The pointer moved to an absolute position inside the window.
    CursorMoved { x: i32, y: i32 },
    /// A mouse button changed state.
    MouseInput { state: ElementState, button: MouseButton },
    /// A key changed state.
    KeyboardInput { state: ElementState, virtual_keycode: Option<u32> },
    /// Anything else; no tracker reacts to it.
    Other,
}

} // verus!
