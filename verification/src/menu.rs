//! The main menu: three rows — Play, Settings, Quit.

use vstd::prelude::*;

use crate::states::GameState;
use crate::states::SettingsOrigin;
use crate::ui::navigate_selection;
use crate::ui::selection_after_nav;

verus! {

/// Number of rows of the main menu.
pub const MENU_ITEMS: usize = 3;

/// The selected menu row.
#[derive(Clone, Copy, Debug)]
pub struct SelectedMenuItem(pub usize);

/// What a menu row does, in row order.
#[derive(Clone, Copy, PartialEq, Eq, Structural, Debug)]
pub enum MenuAction {
    StartGame,
    Settings,
    Exit,
}

/// What the engine must do after a menu frame: switch screens or quit the
/// process.
#[derive(Clone, Copy, Debug)]
pub struct MenuOutcome {
    pub next_state: Option<GameState>,
    pub quit: bool,
}

/// Move the menu selection by one frame of Up/Down input.
pub fn menu_navigation(up: bool, down: bool, selected: &mut SelectedMenuItem)
    requires
        old(selected).0 < MENU_ITEMS,
    ensures
        final(selected).0 < MENU_ITEMS,
        final(selected).0 == selection_after_nav(old(selected).0 as int, up, down, MENU_ITEMS as int),
{
    selected.0 = navigate_selection(selected.0, up, down, MENU_ITEMS);
}

/// Activate the selected menu row. Play starts the game on the current
/// level, Settings opens the settings screen with the menu recorded as its
/// origin, Quit asks the process to exit; without Enter nothing happens.
pub fn menu_action(enter: bool, selected: &SelectedMenuItem, origin: &mut SettingsOrigin) -> (o:
    MenuOutcome)
    ensures
        !enter ==> *final(origin) == *old(origin) && o.next_state is None && !o.quit,
        enter && selected.0 == 0 ==> *final(origin) == *old(origin) && o.next_state == Some(
            GameState::Playing,
        ) && !o.quit,
        enter && selected.0 == 1 ==> *final(origin) == SettingsOrigin::Menu && o.next_state == Some(
            GameState::Settings,
        ) && !o.quit,
        enter && selected.0 == 2 ==> *final(origin) == *old(origin) && o.next_state is None
            && o.quit,
        enter && selected.0 > 2 ==> *final(origin) == *old(origin) && o.next_state is None
            && !o.quit,
{
    if !enter {
        return MenuOutcome { next_state: None, quit: false };
    }
    if selected.0 == 0 {
        MenuOutcome { next_state: Some(GameState::Playing), quit: false }
    } else if selected.0 == 1 {
        *origin = SettingsOrigin::Menu;
        MenuOutcome { next_state: Some(GameState::Settings), quit: false }
    } else if selected.0 == 2 {
        MenuOutcome { next_state: None, quit: true }
    } else {
        MenuOutcome { next_state: None, quit: false }
    }
}

} // verus!
