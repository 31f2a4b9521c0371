//! The abstract input surface the control layer consumes: pointer, wheel
//! and named key actions, already separated from the host window system.

use crate::interaction::MouseButton;
use vstd::prelude::*;

verus! {

/// Window input coordinates handed to the library stay within this bound;
/// any physical window position fits it with a wide margin.
pub const EVENT_COORD_MAX: i64 = 4294967296;

/// A named key action of the command surface.
#[derive(Debug, Copy, Clone, PartialEq, Eq, Structural)]
pub enum KeyAction {
    ToggleSync,
    ToggleCine,
    CineFaster,
    CineSlower,
    BitrateUp,
    BitrateDown,
    NextCase,
    PreviousCase,
    NextProtocol,
    PreviousProtocol,
}

/// A window input event, in plain values. Coordinates are pixels relative
/// to the window origin; wheel deltas are fixed-point frames.
#[derive(Debug, Copy, Clone, PartialEq, Eq)]
pub enum InputEvent {
    CursorMoved { x: i64, y: i64 },
    MouseInput { button: MouseButton, pressed: bool },
    ModifiersChanged { ctrl: bool },
    MouseWheel { delta: i64 },
    Key(KeyAction),
}

impl InputEvent {
    /// Event coordinates lie within `bound` (events forwarded into child
    /// rectangles stay within a small multiple of the window bound).
    pub open spec fn coords_within(self, bound: int) -> bool {
        match self {
            InputEvent::CursorMoved { x, y } => -bound <= x <= bound && -bound <= y <= bound,
            _ => true,
        }
    }

    /// Event coordinates lie within the window-coordinate bound.
    pub open spec fn wf(self) -> bool {
        self.coords_within(EVENT_COORD_MAX as int)
    }
}

} // verus!
