//! Player-side state the core tracks: where to respawn, whether the player
//! stands on ground, deaths per attempt, and the resolution of raw movement
//! input into a movement command.

use vstd::prelude::*;

verus! {

/// Where the player (re)spawns, in grid cells; the engine scales by the tile
/// size when placing the body.
#[derive(Clone, Copy, PartialEq, Eq, Structural, Debug)]
pub struct SpawnPoint {
    pub x: i32,
    pub y: i32,
}

/// Whether the player's ground sensor touched anything this step.
#[derive(Clone, Copy, Debug)]
pub struct Grounded(pub bool);

/// Deaths of one playthrough attempt: on the current level and in total.
/// Created when play begins from the menu, kept across level transitions,
/// read once on the victory screen and discarded on returning to the menu.
#[derive(Clone, Copy, PartialEq, Eq, Structural, Debug)]
pub struct DeathCounter {
    pub current_level: usize,
    pub total: usize,
}

impl DeathCounter {
    /// A fresh attempt: no deaths yet.
    pub fn new() -> (c: Self)
        ensures
            c.current_level == 0,
            c.total == 0,
    {
        DeathCounter { current_level: 0, total: 0 }
    }
}

/// Update the grounded flag from the ground sensor's contact count.
pub fn ground_detection(grounded: &mut Grounded, touching: bool)
    ensures
        final(grounded).0 == touching,
{
    grounded.0 = touching;
}

/// The horizontal part of a movement command.
#[derive(Clone, Copy, PartialEq, Eq, Structural, Debug)]
pub enum HorizontalDir {
    Left,
    Right,
    Still,
}

/// One frame's movement command: which way to run, and whether to jump.
#[derive(Clone, Copy, PartialEq, Eq, Structural, Debug)]
pub struct MoveCommand {
    pub dir: HorizontalDir,
    pub jump: bool,
}

/// What `resolve_movement` decides for a frame of raw input.
pub open spec fn movement_spec(left: bool, right: bool, jump_pressed: bool, grounded: bool) -> MoveCommand {
    MoveCommand {
        dir: if left && !right {
            HorizontalDir::Left
        } else if right && !left {
            HorizontalDir::Right
        } else {
            HorizontalDir::Still
        },
        jump: jump_pressed && grounded,
    }
}

/// Resolve raw input into a movement command: opposite directions cancel,
/// and a jump is taken only from the ground. The engine turns the command
/// into velocities.
pub fn resolve_movement(left: bool, right: bool, jump_pressed: bool, grounded: bool) -> (cmd: MoveCommand)
    ensures
        cmd == movement_spec(left, right, jump_pressed, grounded),
{
    let dir = if left && !right {
        HorizontalDir::Left
    } else if right && !left {
        HorizontalDir::Right
    } else {
        HorizontalDir::Still
    };
    MoveCommand { dir, jump: jump_pressed && grounded }
}

} // verus!
