use vstd::prelude::*;

verus! {

/// The mouse button of a mouse-down event.
#[derive(Clone, Copy, PartialEq, Eq, Structural, Debug)]
pub enum MouseButton {
    Left,
    Right,
    Middle,
}

/// The key of a key-press event, as far as dispatch cares: the cancel key,
/// a printable character, or anything else.
#[derive(Clone, Copy, PartialEq, Eq, Structural, Debug)]
pub enum KeyCode {
    Esc,
    Char(char),
    Other,
}

/// Modifier keys held during a key press.
#[derive(Clone, Copy, PartialEq, Eq, Structural, Debug)]
pub struct Modifiers {
    pub shift: bool,
    pub control: bool,
    pub alt: bool,
}

impl Modifiers {
    /// No modifier held.
    pub fn none() -> (m: Modifiers)
        ensures
            m == (Modifiers { shift: false, control: false, alt: false }),
    {
        Modifiers { shift: false, control: false, alt: false }
    }
}

/// One decoded input event, handed to the dispatcher by the terminal
/// adapter.
#[derive(Clone, Copy, PartialEq, Eq, Structural, Debug)]
pub enum Event {
    Resize { width: u16, height: u16 },
    MouseDown { button: MouseButton, column: u16, row: u16 },
    KeyPress { code: KeyCode, modifiers: Modifiers },
    Other,
}

impl Event {
    /// Whether this event is the cancel chord: the escape key with no
    /// modifier held. It alone terminates the event loop.
    pub open spec fn is_cancel(self) -> bool {
        self == (Event::KeyPress {
            code: KeyCode::Esc,
            modifiers: Modifiers { shift: false, control: false, alt: false },
        })
    }
}

/// What the event loop should do after one event was dispatched: keep
/// running, or restore the terminal and stop.
#[derive(Clone, Copy, PartialEq, Eq, Structural, Debug)]
pub enum Flow {
    Running,
    Terminated,
}

} // verus!
