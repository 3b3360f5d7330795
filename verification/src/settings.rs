//! The settings screen: volume, resolution and window mode, and the two-step
//! reset-progress confirmation that guards the one destructive action.
//!
//! Rows 0..=3 adjust a value, row 4 is "Save" (settings apply immediately;
//! the row only clears the dirty marker), row 5 opens the reset dialog and
//! row 6 goes back to the screen that opened settings. The reset dialog's
//! buttons are reported as rows `CONFIRM_ROW_BASE + 0` ("Yes") and
//! `CONFIRM_ROW_BASE + 1` ("No").

use vstd::prelude::*;
use vstd::string::StringExecFns;

use crate::progress::PlayerProgress;
use crate::states::{GameState, SettingsOrigin};
use crate::ui::RowHighlight;
use crate::ui::navigate_selection;
use crate::ui::selection_after_nav;

verus! {

/// Number of rows of the settings screen.
pub const SETTINGS_ITEMS: usize = 7;

/// Row indices at and above this belong to the reset-confirmation dialog.
pub const CONFIRM_ROW_BASE: usize = 100;

/// A resolution preset, in pixels.
#[derive(Clone, Copy, PartialEq, Eq, Structural, Debug)]
pub struct Resolution {
    pub width: u32,
    pub height: u32,
}

/// The two supported presets.
pub open spec fn windowed_720p() -> Resolution {
    Resolution { width: 1280, height: 720 }
}

pub open spec fn windowed_1080p() -> Resolution {
    Resolution { width: 1920, height: 1080 }
}

/// The adjustable settings. Volumes are held in tenths of full volume
/// (`0 ..= 10`), the unit the screen adjusts by; the engine divides by ten
/// when it applies them.
#[derive(Clone, Copy, PartialEq, Eq, Structural, Debug)]
pub struct GameSettings {
    pub music_volume: u8,
    pub sfx_volume: u8,
    pub resolution: Resolution,
    pub fullscreen: bool,
}

impl GameSettings {
    /// Volumes stay on the ten-step scale and the resolution is one of the
    /// two supported presets.
    pub open spec fn wf(self) -> bool {
        &&& self.music_volume <= 10
        &&& self.sfx_volume <= 10
        &&& (self.resolution == windowed_720p() || self.resolution == windowed_1080p())
    }
}

impl Default for GameSettings {
    fn default() -> (r: Self)
        ensures
            r == (GameSettings {
                music_volume: 7,
                sfx_volume: 7,
                resolution: (Resolution { width: 1280, height: 720 }),
                fullscreen: false,
            }),
            r.wf(),
    {
        GameSettings {
            music_volume: 7,
            sfx_volume: 7,
            resolution: Resolution { width: 1280, height: 720 },
            fullscreen: false,
        }
    }
}

/// Whether a setting was adjusted since the screen was entered or "Save"
/// last activated; drawn as a marker on the "Save" row only.
#[derive(Clone, Copy, Debug)]
pub struct SettingsChanged(pub bool);

/// Whether the reset-progress dialog is open.
#[derive(Clone, Copy, Debug)]
pub struct ConfirmingReset(pub bool);

/// The selected settings row, `0 ..= 6`.
#[derive(Clone, Copy, Debug)]
pub struct SelectedSettingsItem(pub usize);

/// The row index a settings widget carries, so pointer events can name it.
#[derive(Clone, Copy, Debug)]
pub struct SettingsRow(pub usize);

/// The selected dialog button: 0 = "Yes", 1 = "No".
#[derive(Clone, Copy, Debug)]
pub struct SelectedConfirmItem(pub usize);

/// One frame of input to the settings screen. `row_clicked` is a pressed
/// settings row (below `CONFIRM_ROW_BASE`); `popup_clicked` reports a press
/// on either dialog button.
#[derive(Clone, Copy, Debug)]
pub struct SettingsInput {
    pub escape: bool,
    pub left: bool,
    pub right: bool,
    pub enter: bool,
    pub row_clicked: Option<usize>,
    pub popup_clicked: bool,
}

/// What the engine must do after a settings frame: switch screens, write the
/// progress file, or push resolution/window mode to the window.
#[derive(Clone, Copy, Debug)]
pub struct SettingsOutcome {
    pub next_state: Option<GameState>,
    pub save_progress: bool,
    pub apply_window: bool,
}

/// The state left behind by one settings frame; `settings_adjust` promises
/// exactly this.
pub struct SettingsPost {
    pub settings: GameSettings,
    pub changed: bool,
    pub confirming: bool,
    pub selected_confirm: usize,
    pub progress: PlayerProgress,
    pub outcome: SettingsOutcome,
}

/// The screen "back" returns to: the one that opened settings.
pub open spec fn go_back_target(origin: SettingsOrigin) -> GameState {
    match origin {
        SettingsOrigin::Menu => GameState::Menu,
        SettingsOrigin::Paused => GameState::Paused,
    }
}

/// Leave the settings screen toward the screen recorded in `origin`.
pub fn go_back(origin: &SettingsOrigin) -> (s: GameState)
    ensures
        s == go_back_target(*origin),
{
    match origin {
        SettingsOrigin::Menu => GameState::Menu,
        SettingsOrigin::Paused => GameState::Paused,
    }
}

pub open spec fn no_outcome() -> SettingsOutcome {
    SettingsOutcome { next_state: None, save_progress: false, apply_window: false }
}

/// Where the dialog selection lands after Left/Right: Left picks "Yes",
/// Right picks "No", Right winning if both arrive in one frame.
pub open spec fn confirm_selection_after(input: SettingsInput, selected_confirm: usize) -> usize {
    if input.right {
        1
    } else if input.left {
        0
    } else {
        selected_confirm
    }
}

/// The settings after one Left/Right adjustment on row `selected`: volumes
/// move one tenth and clamp to the scale, the resolution toggles between the
/// presets, and the window mode flips.
pub open spec fn adjusted_settings(input: SettingsInput, selected: usize, s: GameSettings) -> GameSettings {
    if selected == 0 {
        GameSettings {
            music_volume: if input.right {
                if s.music_volume < 10 {
                    (s.music_volume + 1) as u8
                } else {
                    10
                }
            } else {
                if s.music_volume > 0 {
                    (s.music_volume - 1) as u8
                } else {
                    0
                }
            },
            ..s
        }
    } else if selected == 1 {
        GameSettings {
            sfx_volume: if input.right {
                if s.sfx_volume < 10 {
                    (s.sfx_volume + 1) as u8
                } else {
                    10
                }
            } else {
                if s.sfx_volume > 0 {
                    (s.sfx_volume - 1) as u8
                } else {
                    0
                }
            },
            ..s
        }
    } else if selected == 2 {
        GameSettings {
            resolution: if s.resolution == windowed_720p() {
                windowed_1080p()
            } else {
                windowed_720p()
            },
            ..s
        }
    } else if selected == 3 {
        GameSettings { fullscreen: !s.fullscreen, ..s }
    } else {
        s
    }
}

/// One frame of the settings screen, as a function of the frame's input and
/// the state it starts from. This is the whole behaviour: the dialog when it
/// is open (escape cancels; enter or a dialog click applies the selected
/// button, and only "Yes" resets progress); otherwise escape or "Back" leave
/// toward the origin, "Save" clears the dirty marker, "Reset Progress" opens
/// the dialog with "No" preselected, and Left/Right adjust the selected row.
pub open spec fn settings_step(
    input: SettingsInput,
    selected: usize,
    settings: GameSettings,
    origin: SettingsOrigin,
    changed: bool,
    confirming: bool,
    progress: PlayerProgress,
    selected_confirm: usize,
) -> SettingsPost {
    if confirming {
        if input.escape {
            SettingsPost {
                settings,
                changed,
                confirming: false,
                selected_confirm,
                progress,
                outcome: no_outcome(),
            }
        } else {
            let sc = confirm_selection_after(input, selected_confirm);
            if input.enter || input.popup_clicked {
                if sc == 0 {
                    SettingsPost {
                        settings,
                        changed,
                        confirming: false,
                        selected_confirm: sc,
                        progress: PlayerProgress { max_unlocked_level: 0 },
                        outcome: SettingsOutcome {
                            next_state: None,
                            save_progress: true,
                            apply_window: false,
                        },
                    }
                } else {
                    SettingsPost {
                        settings,
                        changed,
                        confirming: false,
                        selected_confirm: sc,
                        progress,
                        outcome: no_outcome(),
                    }
                }
            } else {
                SettingsPost {
                    settings,
                    changed,
                    confirming: true,
                    selected_confirm: sc,
                    progress,
                    outcome: no_outcome(),
                }
            }
        }
    } else if input.escape {
        SettingsPost {
            settings,
            changed,
            confirming: false,
            selected_confirm,
            progress,
            outcome: SettingsOutcome {
                next_state: Some(go_back_target(origin)),
                save_progress: false,
                apply_window: false,
            },
        }
    } else {
        let activated = input.enter || input.row_clicked is Some;
        let action_row = if input.row_clicked is Some {
            input.row_clicked->0
        } else {
            selected
        };
        if activated && action_row == 4 {
            SettingsPost {
                settings,
                changed: false,
                confirming: false,
                selected_confirm,
                progress,
                outcome: no_outcome(),
            }
        } else if activated && action_row == 5 {
            SettingsPost {
                settings,
                changed,
                confirming: true,
                selected_confirm: 1,
                progress,
                outcome: no_outcome(),
            }
        } else if activated && action_row == 6 {
            SettingsPost {
                settings,
                changed,
                confirming: false,
                selected_confirm,
                progress,
                outcome: SettingsOutcome {
                    next_state: Some(go_back_target(origin)),
                    save_progress: false,
                    apply_window: false,
                },
            }
        } else if !input.left && !input.right {
            SettingsPost {
                settings,
                changed,
                confirming: false,
                selected_confirm,
                progress,
                outcome: no_outcome(),
            }
        } else {
            SettingsPost {
                settings: adjusted_settings(input, selected, settings),
                changed: if selected <= 3 {
                    true
                } else {
                    changed
                },
                confirming: false,
                selected_confirm,
                progress,
                outcome: SettingsOutcome {
                    next_state: None,
                    save_progress: false,
                    apply_window: selected == 2 || selected == 3,
                },
            }
        }
    }
}

/// Run one frame of the settings screen. The outcome lists what the engine
/// must apply afterwards; the dialog and dirty flags, the dialog selection,
/// the settings and the progress are updated in place.
pub fn settings_adjust(
    input: SettingsInput,
    selected: &SelectedSettingsItem,
    settings: &mut GameSettings,
    origin: &SettingsOrigin,
    changed: &mut SettingsChanged,
    confirming: &mut ConfirmingReset,
    progress: &mut PlayerProgress,
    selected_confirm: &mut SelectedConfirmItem,
) -> (outcome: SettingsOutcome)
    ensures
        ({
            let post = settings_step(
                input,
                selected.0,
                *old(settings),
                *origin,
                old(changed).0,
                old(confirming).0,
                *old(progress),
                old(selected_confirm).0,
            );
            &&& *final(settings) == post.settings
            &&& final(changed).0 == post.changed
            &&& final(confirming).0 == post.confirming
            &&& final(selected_confirm).0 == post.selected_confirm
            &&& *final(progress) == post.progress
            &&& outcome == post.outcome
        }),
        old(settings).wf() ==> final(settings).wf(),
{
    if confirming.0 {
        if input.escape {
            confirming.0 = false;
            return SettingsOutcome { next_state: None, save_progress: false, apply_window: false };
        }
        if input.left {
            selected_confirm.0 = 0;
        }
        if input.right {
            selected_confirm.0 = 1;
        }
        if input.enter || input.popup_clicked {
            let mut save = false;
            if selected_confirm.0 == 0 {
                progress.max_unlocked_level = 0;
                save = true;
            }
            confirming.0 = false;
            return SettingsOutcome { next_state: None, save_progress: save, apply_window: false };
        }
        return SettingsOutcome { next_state: None, save_progress: false, apply_window: false };
    }

    if input.escape {
        return SettingsOutcome {
            next_state: Some(go_back(origin)),
            save_progress: false,
            apply_window: false,
        };
    }

    if input.enter || input.row_clicked.is_some() {
        let action_row = match input.row_clicked {
            Some(row) => row,
            None => selected.0,
        };
        if action_row == 4 {
            changed.0 = false;
            return SettingsOutcome { next_state: None, save_progress: false, apply_window: false };
        }
        if action_row == 5 {
            confirming.0 = true;
            // The dialog opens with the safe choice, "No", preselected.
            selected_confirm.0 = 1;
            return SettingsOutcome { next_state: None, save_progress: false, apply_window: false };
        }
        if action_row == 6 {
            return SettingsOutcome {
                next_state: Some(go_back(origin)),
                save_progress: false,
                apply_window: false,
            };
        }
    }

    if !input.left && !input.right {
        return SettingsOutcome { next_state: None, save_progress: false, apply_window: false };
    }

    let mut apply_window = false;
    if selected.0 == 0 {
        if input.right {
            if settings.music_volume < 10 {
                settings.music_volume = settings.music_volume + 1;
            } else {
                settings.music_volume = 10;
            }
        } else {
            if settings.music_volume > 0 {
                settings.music_volume = settings.music_volume - 1;
            } else {
                settings.music_volume = 0;
            }
        }
        changed.0 = true;
    } else if selected.0 == 1 {
        if input.right {
            if settings.sfx_volume < 10 {
                settings.sfx_volume = settings.sfx_volume + 1;
            } else {
                settings.sfx_volume = 10;
            }
        } else {
            if settings.sfx_volume > 0 {
                settings.sfx_volume = settings.sfx_volume - 1;
            } else {
                settings.sfx_volume = 0;
            }
        }
        changed.0 = true;
    } else if selected.0 == 2 {
        if settings.resolution.width == 1280 && settings.resolution.height == 720 {
            settings.resolution = Resolution { width: 1920, height: 1080 };
        } else {
            settings.resolution = Resolution { width: 1280, height: 720 };
        }
        apply_window = true;
        changed.0 = true;
    } else if selected.0 == 3 {
        settings.fullscreen = !settings.fullscreen;
        apply_window = true;
        changed.0 = true;
    }
    SettingsOutcome { next_state: None, save_progress: false, apply_window }
}

/// Reset the screen on entry: top row selected, nothing dirty, dialog closed.
pub fn settings_on_enter(
    selected: &mut SelectedSettingsItem,
    changed: &mut SettingsChanged,
    confirming: &mut ConfirmingReset,
)
    ensures
        final(selected).0 == 0,
        !final(changed).0,
        !final(confirming).0,
{
    selected.0 = 0;
    changed.0 = false;
    confirming.0 = false;
}

/// Move the row selection by one frame of Up/Down input; frozen while the
/// reset dialog is open.
pub fn settings_navigation(
    up: bool,
    down: bool,
    selected: &mut SelectedSettingsItem,
    confirming: &ConfirmingReset,
)
    requires
        old(selected).0 < SETTINGS_ITEMS,
    ensures
        final(selected).0 < SETTINGS_ITEMS,
        confirming.0 ==> final(selected).0 == old(selected).0,
        !confirming.0 ==> final(selected).0 == selection_after_nav(
            old(selected).0 as int,
            up,
            down,
            SETTINGS_ITEMS as int,
        ),
{
    if confirming.0 {
        return ;
    }
    selected.0 = navigate_selection(selected.0, up, down, SETTINGS_ITEMS);
}

/// The selections after a frame of pointer hovers: hovers on dialog buttons
/// move the dialog selection while the dialog is open, hovers on settings
/// rows move the row selection while it is closed, later hovers overriding
/// earlier ones.
pub open spec fn hovered_settings_selection(
    rows: Seq<usize>,
    confirming: bool,
    selected: usize,
    selected_confirm: usize,
) -> (usize, usize)
    decreases rows.len(),
{
    if rows.len() == 0 {
        (selected, selected_confirm)
    } else {
        let prev = hovered_settings_selection(rows.drop_last(), confirming, selected, selected_confirm);
        let row = rows.last();
        if confirming && row >= CONFIRM_ROW_BASE {
            (prev.0, (row - CONFIRM_ROW_BASE) as usize)
        } else if !confirming && row < CONFIRM_ROW_BASE {
            (row, prev.1)
        } else {
            prev
        }
    }
}

/// Apply the pointer hovers of one frame to the two selections.
pub fn settings_mouse(
    rows: &Vec<usize>,
    confirming: &ConfirmingReset,
    selected: &mut SelectedSettingsItem,
    selected_confirm: &mut SelectedConfirmItem,
)
    ensures
        ({
            let post = hovered_settings_selection(
                rows@,
                confirming.0,
                old(selected).0,
                old(selected_confirm).0,
            );
            final(selected).0 == post.0 && final(selected_confirm).0 == post.1
        }),
{
    let ghost sel0: usize = selected.0;
    let ghost conf0: usize = selected_confirm.0;
    let mut i: usize = 0;
    while i < rows.len()
        invariant
            i <= rows.len(),
            (selected.0, selected_confirm.0) == hovered_settings_selection(
                rows@.subrange(0, i as int),
                confirming.0,
                sel0,
                conf0,
            ),
        decreases rows.len() - i,
    {
        let row = rows[i];
        proof {
            assert(rows@.subrange(0, i + 1 as int).drop_last() =~= rows@.subrange(0, i as int));
            assert(rows@.subrange(0, i + 1 as int).last() == rows@[i as int]);
        }
        if confirming.0 && row >= CONFIRM_ROW_BASE {
            selected_confirm.0 = row - CONFIRM_ROW_BASE;
        } else if !confirming.0 && row < CONFIRM_ROW_BASE {
            selected.0 = row;
        }
        i = i + 1;
    }
    proof {
        assert(rows@.subrange(0, rows@.len() as int) =~= rows@);
    }
}

/// How one row of the settings screen is drawn, dialog buttons included.
pub open spec fn settings_highlight_spec(
    row: usize,
    selected: usize,
    changed: bool,
    confirming: bool,
    selected_confirm: usize,
) -> RowHighlight {
    if row >= CONFIRM_ROW_BASE {
        if confirming && row - CONFIRM_ROW_BASE == selected_confirm {
            if row == CONFIRM_ROW_BASE {
                RowHighlight::ConfirmDanger
            } else {
                RowHighlight::Selected
            }
        } else {
            RowHighlight::Normal
        }
    } else if row == 4 && changed {
        if row == selected {
            RowHighlight::SaveDirtySelected
        } else {
            RowHighlight::SaveDirty
        }
    } else if row == selected {
        RowHighlight::Selected
    } else {
        RowHighlight::Normal
    }
}

/// Pick the highlight of one settings row for drawing.
pub fn settings_highlight(
    row: usize,
    selected: usize,
    changed: bool,
    confirming: bool,
    selected_confirm: usize,
) -> (h: RowHighlight)
    ensures
        h == settings_highlight_spec(row, selected, changed, confirming, selected_confirm),
{
    if row >= CONFIRM_ROW_BASE {
        if confirming && row - CONFIRM_ROW_BASE == selected_confirm {
            if row == CONFIRM_ROW_BASE {
                RowHighlight::ConfirmDanger
            } else {
                RowHighlight::Selected
            }
        } else {
            RowHighlight::Normal
        }
    } else if row == 4 && changed {
        if row == selected {
            RowHighlight::SaveDirtySelected
        } else {
            RowHighlight::SaveDirty
        }
    } else if row == selected {
        RowHighlight::Selected
    } else {
        RowHighlight::Normal
    }
}

/// Cancelling the reset dialog — closing it with Escape, confirming with
/// "No" selected, or any frame that does not activate a button — leaves the
/// saved progress untouched and asks for no write.
pub proof fn lemma_reset_cancel_keeps_progress(
    input: SettingsInput,
    selected: usize,
    settings: GameSettings,
    origin: SettingsOrigin,
    changed: bool,
    progress: PlayerProgress,
    selected_confirm: usize,
)
    requires
        input.escape || confirm_selection_after(input, selected_confirm) != 0 || !(input.enter
            || input.popup_clicked),
    ensures
        ({
            let post = settings_step(
                input,
                selected,
                settings,
                origin,
                changed,
                true,
                progress,
                selected_confirm,
            );
            post.progress == progress && !post.outcome.save_progress
        }),
{
}

/// Confirming the reset dialog on "Yes" resets progress to zero and asks for
/// it to be written out.
pub proof fn lemma_reset_confirm_resets_progress(
    input: SettingsInput,
    selected: usize,
    settings: GameSettings,
    origin: SettingsOrigin,
    changed: bool,
    progress: PlayerProgress,
    selected_confirm: usize,
)
    requires
        !input.escape,
        input.enter || input.popup_clicked,
        confirm_selection_after(input, selected_confirm) == 0,
    ensures
        ({
            let post = settings_step(
                input,
                selected,
                settings,
                origin,
                changed,
                true,
                progress,
                selected_confirm,
            );
            post.progress.max_unlocked_level == 0 && post.outcome.save_progress
        }),
{
}

/// The settings screen never lowers progress except through the confirmed
/// reset: any frame that leaves `max_unlocked_level` lower than it was is a
/// frame with the dialog open in which "Yes" was activated, and it both
/// zeroes the value and asks for the write.
pub proof fn lemma_progress_lowered_only_by_confirmed_reset(
    input: SettingsInput,
    selected: usize,
    settings: GameSettings,
    origin: SettingsOrigin,
    changed: bool,
    confirming: bool,
    progress: PlayerProgress,
    selected_confirm: usize,
)
    ensures
        ({
            let post = settings_step(
                input,
                selected,
                settings,
                origin,
                changed,
                confirming,
                progress,
                selected_confirm,
            );
            post.progress.max_unlocked_level < progress.max_unlocked_level ==> {
                &&& confirming
                &&& !input.escape
                &&& input.enter || input.popup_clicked
                &&& confirm_selection_after(input, selected_confirm) == 0
                &&& post.progress.max_unlocked_level == 0
                &&& post.outcome.save_progress
            }
        }),
{
}

/// The text of the volume gauge: one `#` per tenth, `-` for the rest, then
/// the percentage.
pub open spec fn volume_suffix(v: int) -> Seq<char> {
    if v == 0 {
        " 0%"@
    } else if v == 1 {
        " 10%"@
    } else if v == 2 {
        " 20%"@
    } else if v == 3 {
        " 30%"@
    } else if v == 4 {
        " 40%"@
    } else if v == 5 {
        " 50%"@
    } else if v == 6 {
        " 60%"@
    } else if v == 7 {
        " 70%"@
    } else if v == 8 {
        " 80%"@
    } else if v == 9 {
        " 90%"@
    } else {
        " 100%"@
    }
}

pub open spec fn volume_bar_spec(v: int) -> Seq<char> {
    Seq::new(v as nat, |i: int| '#') + Seq::new((10 - v) as nat, |i: int| '-') + volume_suffix(v)
}

/// Render the volume gauge for a volume in tenths.
pub fn volume_bar(volume: u8) -> (s: String)
    requires
        volume <= 10,
    ensures
        s@ == volume_bar_spec(volume as int),
{
    let mut s = String::new();
    let mut i: usize = 0;
    while i < volume as usize
        invariant
            i <= volume <= 10,
            s@ =~= Seq::new(i as nat, |t: int| '#'),
        decreases volume - i,
    {
        s.append("#");
        proof {
            reveal_strlit("#");
            assert(s@ =~= Seq::new((i + 1) as nat, |t: int| '#'));
        }
        i = i + 1;
    }
    let mut j: usize = 0;
    let ghost hashes = s@;
    while j < 10 - volume as usize
        invariant
            j <= 10 - volume,
            volume <= 10,
            s@ =~= hashes + Seq::new(j as nat, |t: int| '-'),
        decreases 10 - volume - j,
    {
        s.append("-");
        proof {
            reveal_strlit("-");
            assert(s@ =~= hashes + Seq::new((j + 1) as nat, |t: int| '-'));
        }
        j = j + 1;
    }
    let suffix: &str = if volume == 0 {
        " 0%"
    } else if volume == 1 {
        " 10%"
    } else if volume == 2 {
        " 20%"
    } else if volume == 3 {
        " 30%"
    } else if volume == 4 {
        " 40%"
    } else if volume == 5 {
        " 50%"
    } else if volume == 6 {
        " 60%"
    } else if volume == 7 {
        " 70%"
    } else if volume == 8 {
        " 80%"
    } else if volume == 9 {
        " 90%"
    } else {
        " 100%"
    };
    s.append(suffix);
    proof {
        assert(s@ =~= volume_bar_spec(volume as int));
    }
    s
}

/// The label of each settings row, with the current values filled in.
pub open spec fn row_text_spec(index: usize, s: GameSettings) -> Seq<char> {
    if index == 0 {
        "Music: "@ + volume_bar_spec(s.music_volume as int)
    } else if index == 1 {
        "Sound: "@ + volume_bar_spec(s.sfx_volume as int)
    } else if index == 2 {
        if s.resolution == windowed_720p() {
            "Resolution: 1280x720"@
        } else {
            "Resolution: 1920x1080"@
        }
    } else if index == 3 {
        if s.fullscreen {
            "Window: Fullscreen"@
        } else {
            "Window: Windowed"@
        }
    } else if index == 4 {
        "Save"@
    } else if index == 5 {
        "Reset Progress"@
    } else if index == 6 {
        "Back"@
    } else {
        Seq::empty()
    }
}

/// Render the label of one settings row.
pub fn row_text(index: usize, settings: &GameSettings) -> (r: String)
    requires
        settings.wf(),
    ensures
        r@ == row_text_spec(index, *settings),
{
    if index == 0 {
        let mut r = String::from_str("Music: ");
        let bar = volume_bar(settings.music_volume);
        r.append(bar.as_str());
        proof {
            assert(r@ =~= row_text_spec(index, *settings));
        }
        r
    } else if index == 1 {
        let mut r = String::from_str("Sound: ");
        let bar = volume_bar(settings.sfx_volume);
        r.append(bar.as_str());
        proof {
            assert(r@ =~= row_text_spec(index, *settings));
        }
        r
    } else if index == 2 {
        if settings.resolution.width == 1280 && settings.resolution.height == 720 {
            String::from_str("Resolution: 1280x720")
        } else {
            String::from_str("Resolution: 1920x1080")
        }
    } else if index == 3 {
        if settings.fullscreen {
            String::from_str("Window: Fullscreen")
        } else {
            String::from_str("Window: Windowed")
        }
    } else if index == 4 {
        String::from_str("Save")
    } else if index == 5 {
        String::from_str("Reset Progress")
    } else if index == 6 {
        String::from_str("Back")
    } else {
        let r = String::new();
        proof {
            assert(r@ =~= row_text_spec(index, *settings));
        }
        r
    }
}

} // verus!
