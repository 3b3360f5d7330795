//! The pause overlay: Escape toggles it from play, and its three rows
//! resume, open settings, or abandon the attempt back to the menu.

use vstd::prelude::*;

use crate::states::GameState;
use crate::states::SettingsOrigin;
use crate::ui::navigate_selection;
use crate::ui::selection_after_nav;

verus! {

/// Number of rows of the pause overlay.
pub const PAUSE_ITEMS: usize = 3;

/// The selected pause row.
#[derive(Clone, Copy, Debug)]
pub struct SelectedPauseItem(pub usize);

/// What a pause row does, in row order.
#[derive(Clone, Copy, PartialEq, Eq, Structural, Debug)]
pub enum PauseAction {
    Resume,
    Settings,
    ToMenu,
}

/// What Escape does this frame: pause from play, resume from pause, nothing
/// anywhere else.
pub fn pause_toggle(escape: bool, state: &GameState) -> (next: Option<GameState>)
    ensures
        !escape ==> next is None,
        escape && *state == GameState::Playing ==> next == Some(GameState::Paused),
        escape && *state == GameState::Paused ==> next == Some(GameState::Playing),
        escape && *state != GameState::Playing && *state != GameState::Paused ==> next is None,
{
    if !escape {
        return None;
    }
    match state {
        GameState::Playing => Some(GameState::Paused),
        GameState::Paused => Some(GameState::Playing),
        _ => None,
    }
}

/// What the engine must do after a pause frame: switch screens and, on the
/// way back to the menu, discard the attempt's death counter.
#[derive(Clone, Copy, Debug)]
pub struct PauseOutcome {
    pub next_state: Option<GameState>,
    pub discard_deaths: bool,
}

/// Move the pause selection by one frame of Up/Down input.
pub fn pause_navigation(up: bool, down: bool, selected: &mut SelectedPauseItem)
    requires
        old(selected).0 < PAUSE_ITEMS,
    ensures
        final(selected).0 < PAUSE_ITEMS,
        final(selected).0 == selection_after_nav(
            old(selected).0 as int,
            up,
            down,
            PAUSE_ITEMS as int,
        ),
{
    selected.0 = navigate_selection(selected.0, up, down, PAUSE_ITEMS);
}

/// Activate the selected pause row. Resume returns to play, Settings opens
/// the settings screen with the pause overlay recorded as its origin, and
/// Main Menu abandons the attempt: back to the menu with the death counter
/// discarded.
pub fn pause_action(activate: bool, selected: &SelectedPauseItem, origin: &mut SettingsOrigin) -> (o:
    PauseOutcome)
    ensures
        !activate ==> *final(origin) == *old(origin) && o.next_state is None && !o.discard_deaths,
        activate && selected.0 == 0 ==> *final(origin) == *old(origin) && o.next_state == Some(
            GameState::Playing,
        ) && !o.discard_deaths,
        activate && selected.0 == 1 ==> *final(origin) == SettingsOrigin::Paused && o.next_state
            == Some(GameState::Settings) && !o.discard_deaths,
        activate && selected.0 == 2 ==> *final(origin) == *old(origin) && o.next_state == Some(
            GameState::Menu,
        ) && o.discard_deaths,
        activate && selected.0 > 2 ==> *final(origin) == *old(origin) && o.next_state is None
            && !o.discard_deaths,
{
    if !activate {
        return PauseOutcome { next_state: None, discard_deaths: false };
    }
    if selected.0 == 0 {
        PauseOutcome { next_state: Some(GameState::Playing), discard_deaths: false }
    } else if selected.0 == 1 {
        *origin = SettingsOrigin::Paused;
        PauseOutcome { next_state: Some(GameState::Settings), discard_deaths: false }
    } else if selected.0 == 2 {
        PauseOutcome { next_state: Some(GameState::Menu), discard_deaths: true }
    } else {
        PauseOutcome { next_state: None, discard_deaths: false }
    }
}

} // verus!
