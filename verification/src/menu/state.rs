//! The menu state machine: pure transitions from (state, input) to
//! (next state, optional action).

use vstd::prelude::*;

verus! {

/// Where the menu is: closed, showing all monitors, or zoomed into one monitor.
#[derive(Debug, Clone, Copy, PartialEq, Eq, Structural)]
pub enum MenuState {
    Closed,
    Overview,
    ZoomedIn(u32),
}

impl Default for MenuState {
    fn default() -> (r: Self)
        ensures
            r == MenuState::Closed,
    {
        MenuState::Closed
    }
}

/// What the user did.
#[derive(Debug, Clone, Copy, PartialEq, Eq, Structural)]
pub enum MenuInput {
    ToggleMenu,
    Escape,
    PressN(u32),
    ShiftN(u32),
    Digit(u8),
}

/// What the engine is asked to do as a result of an input.
#[derive(Debug, Clone, Copy, PartialEq, Eq, Structural)]
pub enum MenuAction {
    Dismiss,
    ZoomIn(u32),
    MoveWindow(u32),
    ApplyLayout(u32, u8),
    EnforceOn(u32),
    EnforceOff(u32),
}

/// The transition table of the menu.
pub open spec fn menu_step(state: MenuState, input: MenuInput) -> (MenuState, Option<MenuAction>) {
    match state {
        MenuState::Closed => match input {
            MenuInput::ToggleMenu => (MenuState::Overview, None),
            _ => (MenuState::Closed, None),
        },
        MenuState::Overview => match input {
            MenuInput::ToggleMenu => (MenuState::Closed, Some(MenuAction::Dismiss)),
            MenuInput::Escape => (MenuState::Closed, Some(MenuAction::Dismiss)),
            MenuInput::PressN(m) => (MenuState::ZoomedIn(m), Some(MenuAction::ZoomIn(m))),
            MenuInput::ShiftN(m) => (MenuState::Closed, Some(MenuAction::MoveWindow(m))),
            MenuInput::Digit(_) => (MenuState::Overview, None),
        },
        MenuState::ZoomedIn(m) => match input {
            MenuInput::ToggleMenu => (MenuState::Closed, Some(MenuAction::Dismiss)),
            MenuInput::Escape => (MenuState::Closed, Some(MenuAction::Dismiss)),
            MenuInput::Digit(d) => if 1 <= d <= 4 {
                (MenuState::Closed, Some(MenuAction::ApplyLayout(m, d)))
            } else if d == 9 {
                (MenuState::Closed, Some(MenuAction::EnforceOn(m)))
            } else if d == 0 {
                (MenuState::Closed, Some(MenuAction::EnforceOff(m)))
            } else {
                (MenuState::ZoomedIn(m), None)
            },
            _ => (MenuState::ZoomedIn(m), None),
        },
    }
}

impl MenuState {
    /// Apply one input: the next state and the action to carry out, if any.
    pub fn transition(self, input: MenuInput) -> (r: (MenuState, Option<MenuAction>))
        ensures
            r == menu_step(self, input),
    {
        match (self, input) {
            // Closed
            (MenuState::Closed, MenuInput::ToggleMenu) => (MenuState::Overview, None),
            (MenuState::Closed, _) => (MenuState::Closed, None),

            // Overview
            (MenuState::Overview, MenuInput::ToggleMenu) => {
                (MenuState::Closed, Some(MenuAction::Dismiss))
            },
            (MenuState::Overview, MenuInput::Escape) => {
                (MenuState::Closed, Some(MenuAction::Dismiss))
            },
            (MenuState::Overview, MenuInput::PressN(monitor)) => {
                (MenuState::ZoomedIn(monitor), Some(MenuAction::ZoomIn(monitor)))
            },
            (MenuState::Overview, MenuInput::ShiftN(monitor)) => {
                (MenuState::Closed, Some(MenuAction::MoveWindow(monitor)))
            },
            (MenuState::Overview, _) => (MenuState::Overview, None),

            // ZoomedIn: the menu hotkey dismisses, as from the overview
            (MenuState::ZoomedIn(_), MenuInput::ToggleMenu) => {
                (MenuState::Closed, Some(MenuAction::Dismiss))
            },
            (MenuState::ZoomedIn(_), MenuInput::Escape) => {
                (MenuState::Closed, Some(MenuAction::Dismiss))
            },
            (MenuState::ZoomedIn(monitor), MenuInput::Digit(d)) => {
                if 1 <= d && d <= 4 {
                    (MenuState::Closed, Some(MenuAction::ApplyLayout(monitor, d)))
                } else if d == 9 {
                    (MenuState::Closed, Some(MenuAction::EnforceOn(monitor)))
                } else if d == 0 {
                    (MenuState::Closed, Some(MenuAction::EnforceOff(monitor)))
                } else {
                    (MenuState::ZoomedIn(monitor), None)
                }
            },
            (MenuState::ZoomedIn(monitor), _) => (MenuState::ZoomedIn(monitor), None),
        }
    }
}

/// A closed menu stays closed, with no action, on every input but `ToggleMenu`,
/// which opens the overview, still with no action.
pub proof fn law_closed_menu_only_opens(input: MenuInput)
    ensures
        menu_step(MenuState::Closed, input).1 is None,
        menu_step(MenuState::Closed, input).0 == (if input is ToggleMenu {
            MenuState::Overview
        } else {
            MenuState::Closed
        }),
{
}

/// The menu hotkey toggles: it opens a closed menu and dismisses an open one.
pub proof fn law_toggle_toggles(state: MenuState)
    ensures
        menu_step(state, MenuInput::ToggleMenu) == (if state == MenuState::Closed {
            (MenuState::Overview, None)
        } else {
            (MenuState::Closed, Some(MenuAction::Dismiss))
        }),
{
}

/// Escape closes an open menu and dismisses it.
pub proof fn law_escape_closes(state: MenuState)
    requires
        state != MenuState::Closed,
    ensures
        menu_step(state, MenuInput::Escape) == (MenuState::Closed, Some(MenuAction::Dismiss)),
{
}

/// Every action other than zooming in closes the menu; zooming in to a
/// monitor leaves the menu zoomed into that monitor.
pub proof fn law_actions_close_menu(state: MenuState, input: MenuInput)
    ensures
        menu_step(state, input).1 matches Some(a) ==> match a {
            MenuAction::ZoomIn(m) => menu_step(state, input).0 == MenuState::ZoomedIn(m),
            _ => menu_step(state, input).0 == MenuState::Closed,
        },
{
}

/// An input without an action leaves the state unchanged, except the one
/// that opens a closed menu.
pub proof fn law_no_action_no_change(state: MenuState, input: MenuInput)
    ensures
        menu_step(state, input).1 is None && !(state == MenuState::Closed
            && input == MenuInput::ToggleMenu) ==> menu_step(state, input).0 == state,
{
}

} // verus!
