//! Turning raw key names from the compositor into menu inputs.

use super::state::{MenuInput, MenuState};
use crate::text::{contains_seq, str_contains, str_equals};
use vstd::prelude::*;

verus! {

/// The digit a key names, if the key is exactly one character `0`-`9`.
pub open spec fn key_digit(key: Seq<char>) -> Option<u8> {
    if key.len() == 1 && '0' <= key[0] && key[0] <= '9' {
        Some((key[0] as int - '0' as int) as u8)
    } else {
        None
    }
}

/// The menu input a key produces in a state (see [`parse_menu_key`]).
pub open spec fn menu_key_input(key: Seq<char>, modifiers: Seq<char>, state: MenuState) -> Option<
    MenuInput,
> {
    if state == MenuState::Closed {
        None
    } else if key == "Escape"@ {
        Some(MenuInput::Escape)
    } else {
        match key_digit(key) {
            Some(d) => match state {
                MenuState::Overview => if d == 0 {
                    None
                } else if contains_seq(modifiers, "shift"@) {
                    Some(MenuInput::ShiftN((d - 1) as u32))
                } else {
                    Some(MenuInput::PressN((d - 1) as u32))
                },
                MenuState::ZoomedIn(_) => Some(MenuInput::Digit(d)),
                MenuState::Closed => None,
            },
            None => None,
        }
    }
}

/// Parse a raw key name and modifier string into a [`MenuInput`] for the given [`MenuState`].
///
/// Returns `None` when the key has no meaning in the current state (e.g. any
/// key while the menu is [`MenuState::Closed`], or an unrecognised key name).
///
/// # Key handling rules
///
/// - `"Escape"` always produces [`MenuInput::Escape`] while the menu is open.
/// - In [`MenuState::Overview`]: digit keys `"1"`–`"9"` are accepted (`"0"` is
///   ignored). A `modifiers` string containing `"shift"` produces
///   [`MenuInput::ShiftN`]; otherwise [`MenuInput::PressN`]. The index passed
///   is `digit - 1` (zero-based).
/// - In [`MenuState::ZoomedIn`]: digit keys `"0"`–`"9"` produce
///   [`MenuInput::Digit`].
/// - Numpad key names (e.g. `"KP_1"`) and every key longer than one
///   character are rejected and return `None`.
pub fn parse_menu_key(key: &str, modifiers: &str, state: MenuState) -> (r: Option<MenuInput>)
    ensures
        r == menu_key_input(key@, modifiers@, state),
{
    if state == MenuState::Closed {
        return None;
    }
    if str_equals(key, "Escape") {
        return Some(MenuInput::Escape);
    }
    // Only single-character digit keys ("0"-"9") are handled; numpad keys
    // like "KP_1", and longer keys like "10" or "01", give None.
    if key.unicode_len() != 1 {
        return None;
    }
    let c = key.get_char(0);
    if !('0' <= c && c <= '9') {
        return None;
    }
    let digit: u8 = (c as u32 - '0' as u32) as u8;
    match state {
        MenuState::Overview => {
            if digit == 0 {
                return None;
            }
            let index = (digit - 1) as u32;
            if str_contains(modifiers, "shift") {
                Some(MenuInput::ShiftN(index))
            } else {
                Some(MenuInput::PressN(index))
            }
        },
        MenuState::ZoomedIn(_) => Some(MenuInput::Digit(digit)),
        MenuState::Closed => None,
    }
}

} // verus!
