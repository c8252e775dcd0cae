//! Input events as the session controller sees them.
//!
//! The controller reads only a key's code and whether the key was pressed, so
//! events are modelled as plain values; the host translates whatever its
//! terminal backend delivers into these before each tick.

use vstd::prelude::*;

verus! {

/// The keys the controller distinguishes. Every other key is `Other` and is
/// ignored by design, so future bindings stay forward-compatible.
#[derive(Clone, Copy, Debug)]
pub enum KeyCode {
    Up,
    Down,
    Enter,
    Char(char),
    Other,
}

/// Whether a key signal is an initial press or a release/repeat-style signal.
/// Only presses drive state transitions.
#[derive(Clone, Copy, Debug)]
pub enum KeyEventKind {
    Press,
    Release,
    Repeat,
}

/// One key signal: a code together with its kind.
#[derive(Clone, Copy, Debug)]
pub struct KeyEvent {
    pub code: KeyCode,
    pub kind: KeyEventKind,
}

impl KeyEvent {
    /// A plain press of `code`.
    pub fn press(code: KeyCode) -> (r: KeyEvent)
        ensures
            r == (KeyEvent { code, kind: KeyEventKind::Press }),
    {
        KeyEvent { code, kind: KeyEventKind::Press }
    }
}

/// One input event. Non-key events never change controller state, so they
/// need no detail beyond not being a key.
#[derive(Clone, Copy, Debug)]
pub enum Event {
    Key(KeyEvent),
    Other,
}

/// The event that presses `code` once.
pub open spec fn key_press(code: KeyCode) -> Event {
    Event::Key(KeyEvent { code, kind: KeyEventKind::Press })
}

/// `n` copies of the same event, in a row.
pub open spec fn repeated(e: Event, n: nat) -> Seq<Event> {
    Seq::new(n, |i: int| e)
}

/// The key press that asks the session to quit.
pub open spec fn is_quit_press(e: Event) -> bool {
    &&& e matches Event::Key(k)
    &&& k.kind is Press
    &&& k.code matches KeyCode::Char(c)
    &&& c == 'q'
}

} // verus!
