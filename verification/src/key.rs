//! Keys, and the actions they stand for.

use crate::action::{Action, EventResponse};
use vstd::prelude::*;

verus! {

/// The key of a key press.
#[derive(Clone, Copy, Debug, PartialEq, Eq, Structural)]
pub enum KeyCode {
    Backspace,
    Enter,
    Left,
    Right,
    Up,
    Down,
    Home,
    End,
    PageUp,
    PageDown,
    Tab,
    BackTab,
    Delete,
    Insert,
    /// A function key, by its number.
    F(u8),
    /// A character key.
    Char(char),
    Null,
    Esc,
    CapsLock,
    ScrollLock,
    NumLock,
    PrintScreen,
    Pause,
    Menu,
    KeypadBegin,
    /// One of the media keys.
    Media,
    /// A modifier key pressed by itself.
    Modifier,
}

/// A key press: the key, and the modifiers held with it as a set of bits.
#[derive(Clone, Copy, Debug, PartialEq, Eq, Structural)]
pub struct KeyEvent {
    pub code: KeyCode,
    /// The modifiers held with the key. No binding of the home page looks at
    /// them.
    pub modifiers: u8,
}

/// The digit that a character from `'1'` to `'9'` shows, less one.
pub open spec fn tab_of(c: char) -> u32 {
    (c as u32 - '1' as u32) as u32
}

/// The action bound to a character key, if any.
pub open spec fn char_action(c: char) -> Option<Action> {
    if c == 'l' || c == 'L' {
        Some(Action::FocusNext)
    } else if c == 'h' || c == 'H' {
        Some(Action::FocusPrev)
    } else if c == 'j' || c == 'J' {
        Some(Action::Down)
    } else if c == 'k' || c == 'K' {
        Some(Action::Up)
    } else if c == 'g' || c == 'G' {
        Some(Action::Go)
    } else if c == 'b' || c == 'B' {
        Some(Action::Back)
    } else if c == 'f' || c == 'F' {
        Some(Action::ToggleFullScreen)
    } else if '1' <= c <= '9' {
        Some(Action::Tab(tab_of(c)))
    } else {
        None
    }
}

/// The action bound to a key, if any.
pub open spec fn key_action(code: KeyCode) -> Option<Action> {
    match code {
        KeyCode::Right => Some(Action::FocusNext),
        KeyCode::Left => Some(Action::FocusPrev),
        KeyCode::Down => Some(Action::Down),
        KeyCode::Up => Some(Action::Up),
        KeyCode::Backspace => Some(Action::Back),
        KeyCode::Enter => Some(Action::Submit),
        KeyCode::Char(c) => char_action(c),
        _ => None,
    }
}

/// What the home page answers to a key: the action bound to it, marked as
/// using the key up, or nothing for a key without a binding.
pub open spec fn key_response(code: KeyCode) -> Option<EventResponse<Action>> {
    match key_action(code) {
        Some(action) => Some(EventResponse::Stop(action)),
        None => None,
    }
}

/// The action bound to a key, if any.
pub fn action_for_key(code: KeyCode) -> (action: Option<Action>)
    ensures
        action == key_action(code),
{
    match code {
        KeyCode::Right | KeyCode::Char('l') | KeyCode::Char('L') => Some(Action::FocusNext),
        KeyCode::Left | KeyCode::Char('h') | KeyCode::Char('H') => Some(Action::FocusPrev),
        KeyCode::Down | KeyCode::Char('j') | KeyCode::Char('J') => Some(Action::Down),
        KeyCode::Up | KeyCode::Char('k') | KeyCode::Char('K') => Some(Action::Up),
        KeyCode::Char('g') | KeyCode::Char('G') => Some(Action::Go),
        KeyCode::Backspace | KeyCode::Char('b') | KeyCode::Char('B') => Some(Action::Back),
        KeyCode::Enter => Some(Action::Submit),
        KeyCode::Char('f') | KeyCode::Char('F') => Some(Action::ToggleFullScreen),
        KeyCode::Char(c) => {
            let digit: u32 = c as u32;
            let one: u32 = '1' as u32;
            let nine: u32 = '9' as u32;
            if one <= digit && digit <= nine {
                Some(Action::Tab(digit - one))
            } else {
                None
            }
        },
        _ => None,
    }
}

} // verus!
