//! The messages that drive a session, and the key presses that become them.

use crate::model::{Model, Section};
use vstd::prelude::*;

verus! {

/// A direction in which the selection moves.
#[derive(Debug, PartialEq, Eq, Clone, Copy, Structural)]
pub enum Direction {
    Up,
    Down,
    Left,
    Right,
}

/// What the user asks of a session.
#[derive(Debug, PartialEq, Eq, Clone, Copy, Structural)]
pub enum Message {
    Move(Direction),
    TextEdit(char),
    RemoveText,
    Toggle,
    Run,
    Quit,
}

/// The key of a key event, as far as a session tells keys apart.
#[derive(Debug, PartialEq, Eq, Clone, Copy, Structural)]
pub enum KeyCode {
    Up,
    Down,
    Left,
    Right,
    Enter,
    Backspace,
    Char(char),
    Other,
}

/// The modifier keys held during a key event, one bit each.
#[derive(Debug, PartialEq, Eq, Clone, Copy, Structural)]
pub struct KeyModifiers {
    pub bits: u8,
}

/// The bit of the control key.
pub const CONTROL: u8 = 2;

impl KeyModifiers {
    /// No modifier key.
    pub fn empty() -> (r: KeyModifiers)
        ensures
            r.bits == 0,
    {
        KeyModifiers { bits: 0 }
    }

    /// The control key and no other.
    pub fn control() -> (r: KeyModifiers)
        ensures
            r.bits == CONTROL,
    {
        KeyModifiers { bits: CONTROL }
    }
}

/// Whether a key went down, was held, or went up.
#[derive(Debug, PartialEq, Eq, Clone, Copy, Structural)]
pub enum KeyEventKind {
    Press,
    Repeat,
    Release,
}

/// What the terminal reports of one key.
#[derive(Debug, PartialEq, Eq, Clone, Copy, Structural)]
pub struct KeyEvent {
    pub code: KeyCode,
    pub modifiers: KeyModifiers,
    pub kind: KeyEventKind,
}

impl KeyEvent {
    /// The event of `code` with `modifiers` held.
    pub fn new_with_kind(code: KeyCode, modifiers: KeyModifiers, kind: KeyEventKind) -> (r:
        KeyEvent)
        ensures
            r == (KeyEvent { code, modifiers, kind }),
    {
        KeyEvent { code, modifiers, kind }
    }
}

/// A section whose entries hold text.
pub open spec fn holds_text(section: Section) -> bool {
    section == Section::Arguments || section == Section::Options
}

/// The message that a key event stands for while `section` is the current
/// one. Only a key that goes down stands for one. The arrows move, enter
/// submits, and `q` with control alone quits. Apart from that, space toggles
/// in the flags, and in a section that holds text a character is typed and
/// backspace removes one.
pub open spec fn message_for(key: KeyEvent, section: Section) -> Option<Message> {
    if key.kind != KeyEventKind::Press {
        None
    } else {
        match key.code {
            KeyCode::Up => Some(Message::Move(Direction::Up)),
            KeyCode::Down => Some(Message::Move(Direction::Down)),
            KeyCode::Left => Some(Message::Move(Direction::Left)),
            KeyCode::Right => Some(Message::Move(Direction::Right)),
            KeyCode::Enter => Some(Message::Run),
            KeyCode::Char(c) => if (c == 'q' || c == 'Q') && key.modifiers.bits == CONTROL {
                Some(Message::Quit)
            } else if c == ' ' && section == Section::Flags {
                Some(Message::Toggle)
            } else if holds_text(section) {
                Some(Message::TextEdit(c))
            } else {
                None
            },
            KeyCode::Backspace => if holds_text(section) {
                Some(Message::RemoveText)
            } else {
                None
            },
            KeyCode::Other => None,
        }
    }
}

/// The message that a key event stands for in the state of `model`.
pub fn handle_key_event(key: KeyEvent, model: &Model) -> (r: Option<Message>)
    ensures
        r == message_for(key, model.current_section),
{
    if key.kind != KeyEventKind::Press {
        return None;
    }
    let in_text = model.current_section == Section::Arguments || model.current_section
        == Section::Options;
    match key.code {
        KeyCode::Up => Some(Message::Move(Direction::Up)),
        KeyCode::Down => Some(Message::Move(Direction::Down)),
        KeyCode::Left => Some(Message::Move(Direction::Left)),
        KeyCode::Right => Some(Message::Move(Direction::Right)),
        KeyCode::Enter => Some(Message::Run),
        KeyCode::Char(c) => {
            if (c == 'q' || c == 'Q') && key.modifiers.bits == CONTROL {
                Some(Message::Quit)
            } else if c == ' ' && model.current_section == Section::Flags {
                Some(Message::Toggle)
            } else if in_text {
                Some(Message::TextEdit(c))
            } else {
                None
            }
        },
        KeyCode::Backspace => {
            if in_text {
                Some(Message::RemoveText)
            } else {
                None
            }
        },
        KeyCode::Other => None,
    }
}

} // verus!
