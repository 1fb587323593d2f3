//! Key strokes, as the widgets read them.

use vstd::prelude::*;

verus! {

/// Which key.
#[derive(Clone, Copy, Debug, PartialEq, Eq, Structural)]
pub enum KeyCode {
    Char(char),
    Esc,
    Enter,
    Left,
    Right,
    Up,
    Down,
    Tab,
    Backspace,
    Delete,
    /// Any other key.
    Other,
}

/// What happened to the key.
#[derive(Clone, Copy, Debug, PartialEq, Eq, Structural)]
pub enum KeyKind {
    Press,
    Repeat,
    Release,
}

/// Which modifier keys were held.
#[derive(Clone, Copy, Debug, PartialEq, Eq, Structural)]
pub enum Modifiers {
    /// No modifier key.
    Plain,
    /// Control, and no other.
    Control,
    /// Any other combination.
    Other,
}

/// One key stroke.
#[derive(Clone, Copy, Debug, PartialEq, Eq, Structural)]
pub struct KeyInput {
    pub code: KeyCode,
    pub modifiers: Modifiers,
    pub kind: KeyKind,
}

/// Where a key stroke goes.
#[derive(Clone, Copy, Debug, PartialEq, Eq, Structural)]
pub enum Routing {
    /// The program ends.
    Quit,
    /// The stroke is dropped.
    Swallow,
    /// The stroke goes to the widget that has the focus.
    Forward,
}

/// Where the key stroke `key` goes: pressing `c` with control ends the
/// program, pressing the up or the down arrow does nothing, and every other
/// stroke goes to the widget that has the focus.
pub open spec fn routing(key: KeyInput) -> Routing {
    if key.kind == KeyKind::Press && key.code == KeyCode::Char('c') && key.modifiers
        == Modifiers::Control {
        Routing::Quit
    } else if key.kind == KeyKind::Press && (key.code == KeyCode::Up || key.code
        == KeyCode::Down) {
        Routing::Swallow
    } else {
        Routing::Forward
    }
}

/// Decides where a key stroke goes.
pub fn route_key(key: KeyInput) -> (r: Routing)
    ensures
        r == routing(key),
{
    match key.kind {
        KeyKind::Press => match key.code {
            KeyCode::Char(c) => if c == 'c' && key.modifiers == Modifiers::Control {
                Routing::Quit
            } else {
                Routing::Forward
            },
            KeyCode::Up | KeyCode::Down => Routing::Swallow,
            _ => Routing::Forward,
        },
        _ => Routing::Forward,
    }
}

} // verus!
