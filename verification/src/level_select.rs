//! The level-select screen: one row per level plus a Back row. Levels above
//! the unlocked maximum are shown locked and cannot be started.

use vstd::prelude::*;

use crate::level::CurrentLevel;
use crate::level::LEVEL_COUNT;
use crate::progress::PlayerProgress;
use crate::states::GameState;
use crate::ui::navigate_selection;
use crate::ui::selection_after_nav;
use crate::ui::RowHighlight;

verus! {

/// The selected row: a level index, or `LEVEL_COUNT` for Back.
#[derive(Clone, Copy, Debug)]
pub struct SelectedLevelItem(pub usize);

/// The row index a level-select widget carries.
#[derive(Clone, Copy, Debug)]
pub struct LevelSelectRow(pub usize);

/// Rows of the screen: the levels and the Back row.
pub fn total_items() -> (n: usize)
    ensures
        n == LEVEL_COUNT + 1,
{
    LEVEL_COUNT + 1
}

/// Whether level `index` may be started: every level up to and including
/// the unlocked maximum.
pub fn is_unlocked(index: usize, progress: &PlayerProgress) -> (b: bool)
    ensures
        b <==> index <= progress.max_unlocked_level,
{
    index <= progress.max_unlocked_level
}

/// Move the selection by one frame of Up/Down input.
pub fn level_select_navigation(up: bool, down: bool, selected: &mut SelectedLevelItem)
    requires
        old(selected).0 < LEVEL_COUNT + 1,
    ensures
        final(selected).0 < LEVEL_COUNT + 1,
        final(selected).0 == selection_after_nav(
            old(selected).0 as int,
            up,
            down,
            LEVEL_COUNT as int + 1,
        ),
{
    selected.0 = navigate_selection(selected.0, up, down, LEVEL_COUNT + 1);
}

/// How one row is drawn: the selected row highlighted; an unselected level
/// row plain when unlocked and dimmed when locked; the Back row plain.
pub open spec fn level_row_highlight(row: usize, selected: usize, max_unlocked: usize) -> RowHighlight {
    if row == selected {
        RowHighlight::Selected
    } else if row < LEVEL_COUNT && row > max_unlocked {
        RowHighlight::Locked
    } else {
        RowHighlight::Normal
    }
}

/// One row of the screen's view model.
#[derive(Clone, Copy, PartialEq, Eq, Structural, Debug)]
pub struct LevelRowView {
    pub index: usize,
    pub unlocked: bool,
    pub highlight: RowHighlight,
}

/// The view model of the whole screen: for each level row whether it is
/// unlocked and how it is drawn, and last the Back row (always unlocked).
pub fn level_select_rows(selected: usize, progress: &PlayerProgress) -> (rows: Vec<LevelRowView>)
    ensures
        rows@.len() == LEVEL_COUNT + 1,
        forall|i: int|
            0 <= i < LEVEL_COUNT + 1 ==> (#[trigger] rows@[i]).index == i,
        forall|i: int|
            0 <= i < LEVEL_COUNT ==> ((#[trigger] rows@[i]).unlocked <==> i
                <= progress.max_unlocked_level),
        rows@[LEVEL_COUNT as int].unlocked,
        forall|i: int|
            0 <= i < LEVEL_COUNT + 1 ==> (#[trigger] rows@[i]).highlight == level_row_highlight(
                i as usize,
                selected,
                progress.max_unlocked_level,
            ),
{
    let mut rows: Vec<LevelRowView> = Vec::new();
    let mut i: usize = 0;
    while i < LEVEL_COUNT
        invariant
            i <= LEVEL_COUNT,
            rows@.len() == i,
            forall|k: int| 0 <= k < i ==> (#[trigger] rows@[k]).index == k,
            forall|k: int|
                0 <= k < i ==> ((#[trigger] rows@[k]).unlocked <==> k
                    <= progress.max_unlocked_level),
            forall|k: int|
                0 <= k < i ==> (#[trigger] rows@[k]).highlight == level_row_highlight(
                    k as usize,
                    selected,
                    progress.max_unlocked_level,
                ),
        decreases LEVEL_COUNT - i,
    {
        let unlocked = is_unlocked(i, progress);
        let highlight = if i == selected {
            RowHighlight::Selected
        } else if !unlocked {
            RowHighlight::Locked
        } else {
            RowHighlight::Normal
        };
        rows.push(LevelRowView { index: i, unlocked, highlight });
        i = i + 1;
    }
    let back_highlight = if i == selected {
        RowHighlight::Selected
    } else {
        RowHighlight::Normal
    };
    rows.push(LevelRowView { index: LEVEL_COUNT, unlocked: true, highlight: back_highlight });
    rows
}

/// Activate the selected row, or leave with Escape. Picking an unlocked
/// level sets the current level and starts play; picking a locked level is
/// rejected silently; Back and Escape return to the menu.
pub fn level_select_action(
    escape: bool,
    activate: bool,
    selected: &SelectedLevelItem,
    progress: &PlayerProgress,
    current_level: &mut CurrentLevel,
) -> (next: Option<GameState>)
    ensures
        escape ==> final(current_level).0 == old(current_level).0 && next == Some(GameState::Menu),
        !escape && !activate ==> final(current_level).0 == old(current_level).0 && next is None,
        !escape && activate && selected.0 < LEVEL_COUNT && selected.0
            <= progress.max_unlocked_level ==> final(current_level).0 == selected.0 && next == Some(
            GameState::Playing,
        ),
        !escape && activate && selected.0 < LEVEL_COUNT && selected.0
            > progress.max_unlocked_level ==> final(current_level).0 == old(current_level).0
            && next is None,
        !escape && activate && selected.0 >= LEVEL_COUNT ==> final(current_level).0 == old(
            current_level,
        ).0 && next == Some(GameState::Menu),
{
    if escape {
        return Some(GameState::Menu);
    }
    if !activate {
        return None;
    }
    if selected.0 < LEVEL_COUNT {
        if selected.0 <= progress.max_unlocked_level {
            current_level.0 = selected.0;
            Some(GameState::Playing)
        } else {
            None
        }
    } else {
        Some(GameState::Menu)
    }
}

} // verus!
