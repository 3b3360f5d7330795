//! Shared pieces of the menu-style screens: wrap-around selection movement
//! and the highlight class of a row.

use vstd::prelude::*;

verus! {

/// How a selectable row is drawn. The variants beyond `Selected` belong to
/// the level-select screen (a locked level is dimmed) and the settings
/// screen: the "Save" row turns green while there are unsaved changes, and
/// the armed "Yes" button of the reset dialog turns red.
#[derive(Clone, Copy, PartialEq, Eq, Structural, Debug)]
pub enum RowHighlight {
    Normal,
    Selected,
    Locked,
    SaveDirty,
    SaveDirtySelected,
    ConfirmDanger,
}

/// Where the selection lands after one frame of Up/Down input, wrapping at
/// both ends. Up is applied before Down, as the input handlers do.
pub open spec fn selection_after_nav(selected: int, up: bool, down: bool, total: int) -> int {
    let after_up = if up {
        if selected == 0 {
            total - 1
        } else {
            selected - 1
        }
    } else {
        selected
    };
    if down {
        (after_up + 1) % total
    } else {
        after_up
    }
}

/// Move a selection over `total` rows by one frame of Up/Down input.
pub fn navigate_selection(selected: usize, up: bool, down: bool, total: usize) -> (r: usize)
    requires
        1 <= total,
        selected < total,
    ensures
        r == selection_after_nav(selected as int, up, down, total as int),
        r < total,
{
    let after_up: usize = if up {
        if selected == 0 {
            total - 1
        } else {
            selected - 1
        }
    } else {
        selected
    };
    if down {
        (after_up + 1) % total
    } else {
        after_up
    }
}

/// The selection after a frame of pointer hovers: the last hovered row wins,
/// and with no hover the selection stays.
pub open spec fn hovered_selection(rows: Seq<usize>, selected: usize) -> usize
    decreases rows.len(),
{
    if rows.len() == 0 {
        selected
    } else {
        rows.last()
    }
}

/// Apply the pointer hovers of one frame to a selection, later hovers
/// overriding earlier ones as the event order does.
pub fn hover_selection(rows: &Vec<usize>, selected: usize) -> (r: usize)
    ensures
        r == hovered_selection(rows@, selected),
{
    let mut r = selected;
    let mut i: usize = 0;
    while i < rows.len()
        invariant
            i <= rows.len(),
            r == hovered_selection(rows@.subrange(0, i as int), selected),
        decreases rows.len() - i,
    {
        r = rows[i];
        proof {
            assert(rows@.subrange(0, i + 1 as int).last() == rows@[i as int]);
        }
        i = i + 1;
    }
    proof {
        assert(rows@.subrange(0, rows@.len() as int) =~= rows@);
    }
    r
}

/// The highlight of a plain row: selected or not.
pub open spec fn plain_highlight(row: usize, selected: usize) -> RowHighlight {
    if row == selected {
        RowHighlight::Selected
    } else {
        RowHighlight::Normal
    }
}

/// Highlight one row of a plain menu-style screen.
pub fn row_highlight(row: usize, selected: usize) -> (h: RowHighlight)
    ensures
        h == plain_highlight(row, selected),
{
    if row == selected {
        RowHighlight::Selected
    } else {
        RowHighlight::Normal
    }
}

} // verus!
