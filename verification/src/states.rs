//! The screens of the game and the return-address for the settings screen.

use vstd::prelude::*;

verus! {

/// One screen of the game; exactly one is active at a time.
///
/// `LevelTransition` is a one-frame pass-through state between two levels:
/// entering it immediately requests `Playing` again, which forces the level
/// to be rebuilt from the next level's data.
#[derive(Clone, Copy, PartialEq, Eq, Structural, Debug)]
pub enum GameState {
    Menu,
    LevelSelect,
    LevelTransition,
    Playing,
    Paused,
    Settings,
    Victory,
}

impl Default for GameState {
    fn default() -> (r: Self)
        ensures
            r == GameState::Menu,
    {
        GameState::Menu
    }
}

/// Which screen requested the settings screen, so that "back" can return
/// there. Set on entering settings and read by `go_back`; a single return
/// address, not a navigation stack.
#[derive(Clone, Copy, PartialEq, Eq, Structural, Debug)]
pub enum SettingsOrigin {
    Menu,
    Paused,
}

impl Default for SettingsOrigin {
    fn default() -> (r: Self)
        ensures
            r == SettingsOrigin::Menu,
    {
        SettingsOrigin::Menu
    }
}

} // verus!
