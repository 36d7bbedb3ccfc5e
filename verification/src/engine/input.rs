//! Input events as plain values: what the host reads from the windowing
//! backend, reduced to what the views decide on.

use vstd::prelude::*;

verus! {

/// The key code of the escape key.
pub const KEY_ESCAPE: i32 = 27;

#[derive(Clone, Copy, Debug, PartialEq, Eq, Structural)]
pub enum MouseButton {
    Unknown,
    Left,
    Middle,
    Right,
    X1,
    X2,
}

/// One input event. Pointer coordinates are absolute, in window pixels.
#[derive(Clone, Copy, Debug, PartialEq, Eq, Structural)]
pub enum InputEvent {
    /// The window was closed.
    Quit,
    /// A key went down; the key code is absent where the backend knows none.
    KeyDown { keycode: Option<i32> },
    /// A mouse button went down at `(x, y)`.
    MouseButtonDown { button: MouseButton, x: i32, y: i32 },
    /// The pointer moved to `(x, y)`.
    MouseMotion { x: i32, y: i32 },
    /// Anything else.
    Other,
}

} // verus!
