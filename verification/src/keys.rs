//! Key bindings: which key asks for which event.

use crate::navigation::NavEvent;
use vstd::prelude::*;

verus! {

/// A key press, as far as the viewer tells keys apart.
#[derive(Clone, Copy, Debug, PartialEq, Eq, Structural)]
pub enum Key {
    /// A key that types a character.
    Char(char),
    Up,
    Down,
    Left,
    Right,
    PageUp,
    PageDown,
    /// Any other key.
    Other,
}

/// The event a key is bound to; `None` for a key that does nothing.
pub open spec fn spec_event_for_key(key: Key) -> Option<NavEvent> {
    match key {
        Key::Char(c) => if c == 'q' {
            Some(NavEvent::Quit)
        } else {
            None
        },
        Key::Up => Some(NavEvent::CursorUp),
        Key::Down => Some(NavEvent::CursorDown),
        Key::Left => Some(NavEvent::CursorLeft),
        Key::Right => Some(NavEvent::CursorRight),
        Key::PageUp => Some(NavEvent::ScrollPageUp),
        Key::PageDown => Some(NavEvent::ScrollPageDown),
        Key::Other => None,
    }
}

/// Looks up the event a key is bound to.
pub fn event_for_key(key: Key) -> (event: Option<NavEvent>)
    ensures
        event == spec_event_for_key(key),
{
    match key {
        Key::Char(c) => if c == 'q' {
            Some(NavEvent::Quit)
        } else {
            None
        },
        Key::Up => Some(NavEvent::CursorUp),
        Key::Down => Some(NavEvent::CursorDown),
        Key::Left => Some(NavEvent::CursorLeft),
        Key::Right => Some(NavEvent::CursorRight),
        Key::PageUp => Some(NavEvent::ScrollPageUp),
        Key::PageDown => Some(NavEvent::ScrollPageDown),
        Key::Other => None,
    }
}

} // verus!
