//! What the keys and the terminal ask for.

use vstd::prelude::*;
use crate::state::types::{TerminalSize, UiAction};

verus! {

/// No modifier key is held.
pub const NO_MODIFIERS: u8 = 0;

/// The control key is held, and no other modifier key.
pub const CONTROL: u8 = 2;

/// A key that was pressed: the character that it types, if it types one, and the
/// modifier keys held with it, one bit each.
#[derive(Clone, Copy, Debug, PartialEq, Eq, Structural)]
pub struct KeyPress {
    pub character: Option<char>,
    pub modifiers: u8,
}

/// What a key asks for: `q` alone and `c` with control ask to leave, the space bar
/// alone asks to pause or to go on, `l` with control asks to draw again, and any
/// other key asks for nothing.
pub open spec fn key_action(key: KeyPress) -> Option<UiAction> {
    if key.character == Some('q') && key.modifiers == NO_MODIFIERS {
        Some(UiAction::Quit)
    } else if key.character == Some('c') && key.modifiers == CONTROL {
        Some(UiAction::Quit)
    } else if key.character == Some(' ') && key.modifiers == NO_MODIFIERS {
        Some(UiAction::TogglePause)
    } else if key.character == Some('l') && key.modifiers == CONTROL {
        Some(UiAction::Refresh)
    } else {
        None
    }
}

/// What a key asks for.
pub fn handle_key_event(key: KeyPress) -> (r: Option<UiAction>)
    ensures
        r == key_action(key),
{
    match key.character {
        Some(c) => {
            if c == 'q' && key.modifiers == NO_MODIFIERS {
                Some(UiAction::Quit)
            } else if c == 'c' && key.modifiers == CONTROL {
                Some(UiAction::Quit)
            } else if c == ' ' && key.modifiers == NO_MODIFIERS {
                Some(UiAction::TogglePause)
            } else if c == 'l' && key.modifiers == CONTROL {
                Some(UiAction::Refresh)
            } else {
                None
            }
        },
        None => None,
    }
}

/// What a new size of the terminal asks for: to take the size, unless its width
/// or its height is zero.
pub fn handle_resize(width: u16, height: u16) -> (r: Option<UiAction>)
    ensures
        match r {
            Some(UiAction::Resize(size)) => width > 0 && height > 0 && size.columns() == width
                && size.rows() == height,
            Some(_) => false,
            None => width == 0 || height == 0,
        },
{
    match TerminalSize::try_new(width, height) {
        Ok(size) => Some(UiAction::Resize(size)),
        Err(_) => None,
    }
}

} // verus!
