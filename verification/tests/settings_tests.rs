use simple_platformer::progress::PlayerProgress;
use simple_platformer::settings::go_back;
use simple_platformer::settings::row_text;
use simple_platformer::settings::settings_adjust;
use simple_platformer::settings::settings_highlight;
use simple_platformer::settings::settings_mouse;
use simple_platformer::settings::settings_navigation;
use simple_platformer::settings::settings_on_enter;
use simple_platformer::settings::volume_bar;
use simple_platformer::settings::ConfirmingReset;
use simple_platformer::settings::GameSettings;
use simple_platformer::settings::Resolution;
use simple_platformer::settings::SelectedConfirmItem;
use simple_platformer::settings::SelectedSettingsItem;
use simple_platformer::settings::SettingsChanged;
use simple_platformer::settings::SettingsInput;
use simple_platformer::states::GameState;
use simple_platformer::states::SettingsOrigin;
use simple_platformer::ui::RowHighlight;
use simple_platformer::victory::death_comment;
use simple_platformer::victory::victory_action;
use simple_platformer::victory::victory_text;
use simple_platformer::logring::LogRingBuffer;

fn no_input() -> SettingsInput {
    SettingsInput {
        escape: false,
        left: false,
        right: false,
        enter: false,
        row_clicked: None,
        popup_clicked: false,
    }
}

struct Screen {
    selected: SelectedSettingsItem,
    settings: GameSettings,
    origin: SettingsOrigin,
    changed: SettingsChanged,
    confirming: ConfirmingReset,
    progress: PlayerProgress,
    selected_confirm: SelectedConfirmItem,
}

fn fresh_screen(progress_level: usize) -> Screen {
    Screen {
        selected: SelectedSettingsItem(0),
        settings: GameSettings::default(),
        origin: SettingsOrigin::Menu,
        changed: SettingsChanged(false),
        confirming: ConfirmingReset(false),
        progress: PlayerProgress { max_unlocked_level: progress_level },
        selected_confirm: SelectedConfirmItem(1),
    }
}

fn step(screen: &mut Screen, input: SettingsInput) -> simple_platformer::settings::SettingsOutcome {
    settings_adjust(
        input,
        &screen.selected,
        &mut screen.settings,
        &screen.origin,
        &mut screen.changed,
        &mut screen.confirming,
        &mut screen.progress,
        &mut screen.selected_confirm,
    )
}

#[test]
fn reset_then_cancel_keeps_progress() {
    let mut screen = fresh_screen(4);
    screen.selected = SelectedSettingsItem(5);
    let open = step(&mut screen, SettingsInput { enter: true, ..no_input() });
    assert!(screen.confirming.0);
    assert_eq!(screen.selected_confirm.0, 1, "dialog must open on the safe choice");
    assert!(!open.save_progress);
    let cancel = step(&mut screen, SettingsInput { enter: true, ..no_input() });
    assert!(!screen.confirming.0);
    assert_eq!(screen.progress.max_unlocked_level, 4);
    assert!(!cancel.save_progress);
}

#[test]
fn reset_then_escape_keeps_progress() {
    let mut screen = fresh_screen(3);
    screen.selected = SelectedSettingsItem(5);
    step(&mut screen, SettingsInput { enter: true, ..no_input() });
    let cancel = step(&mut screen, SettingsInput { escape: true, ..no_input() });
    assert!(!screen.confirming.0);
    assert_eq!(screen.progress.max_unlocked_level, 3);
    assert!(!cancel.save_progress);
}

#[test]
fn reset_then_confirm_zeroes_and_saves() {
    let mut screen = fresh_screen(4);
    screen.selected = SelectedSettingsItem(5);
    step(&mut screen, SettingsInput { enter: true, ..no_input() });
    step(&mut screen, SettingsInput { left: true, ..no_input() });
    assert_eq!(screen.selected_confirm.0, 0);
    let confirm = step(&mut screen, SettingsInput { enter: true, ..no_input() });
    assert!(!screen.confirming.0);
    assert_eq!(screen.progress.max_unlocked_level, 0);
    assert!(confirm.save_progress);
}

#[test]
fn volume_steps_and_clamps() {
    let mut screen = fresh_screen(0);
    screen.selected = SelectedSettingsItem(0);
    step(&mut screen, SettingsInput { right: true, ..no_input() });
    assert_eq!(screen.settings.music_volume, 8);
    assert!(screen.changed.0);
    for _ in 0..5 {
        step(&mut screen, SettingsInput { right: true, ..no_input() });
    }
    assert_eq!(screen.settings.music_volume, 10);
    for _ in 0..12 {
        step(&mut screen, SettingsInput { left: true, ..no_input() });
    }
    assert_eq!(screen.settings.music_volume, 0);
}

#[test]
fn resolution_toggles_and_applies() {
    let mut screen = fresh_screen(0);
    screen.selected = SelectedSettingsItem(2);
    let o = step(&mut screen, SettingsInput { right: true, ..no_input() });
    assert_eq!(screen.settings.resolution, Resolution { width: 1920, height: 1080 });
    assert!(o.apply_window);
    let o2 = step(&mut screen, SettingsInput { left: true, ..no_input() });
    assert_eq!(screen.settings.resolution, Resolution { width: 1280, height: 720 });
    assert!(o2.apply_window);
}

#[test]
fn fullscreen_flips() {
    let mut screen = fresh_screen(0);
    screen.selected = SelectedSettingsItem(3);
    let o = step(&mut screen, SettingsInput { right: true, ..no_input() });
    assert!(screen.settings.fullscreen);
    assert!(o.apply_window);
}

#[test]
fn save_row_clears_dirty_marker() {
    let mut screen = fresh_screen(0);
    screen.selected = SelectedSettingsItem(0);
    step(&mut screen, SettingsInput { right: true, ..no_input() });
    assert!(screen.changed.0);
    screen.selected = SelectedSettingsItem(4);
    step(&mut screen, SettingsInput { enter: true, ..no_input() });
    assert!(!screen.changed.0);
}

#[test]
fn back_returns_to_origin() {
    let mut screen = fresh_screen(0);
    screen.selected = SelectedSettingsItem(6);
    let o = step(&mut screen, SettingsInput { enter: true, ..no_input() });
    assert_eq!(o.next_state, Some(GameState::Menu));
    let mut paused = fresh_screen(0);
    paused.origin = SettingsOrigin::Paused;
    let esc = step(&mut paused, SettingsInput { escape: true, ..no_input() });
    assert_eq!(esc.next_state, Some(GameState::Paused));
    assert_eq!(go_back(&SettingsOrigin::Paused), GameState::Paused);
}

#[test]
fn entering_settings_resets_screen_state() {
    let mut selected = SelectedSettingsItem(5);
    let mut changed = SettingsChanged(true);
    let mut confirming = ConfirmingReset(true);
    settings_on_enter(&mut selected, &mut changed, &mut confirming);
    assert_eq!(selected.0, 0);
    assert!(!changed.0);
    assert!(!confirming.0);
}

#[test]
fn navigation_skips_while_confirming() {
    let mut selected = SelectedSettingsItem(0);
    settings_navigation(true, false, &mut selected, &ConfirmingReset(false));
    assert_eq!(selected.0, 6);
    settings_navigation(false, true, &mut selected, &ConfirmingReset(true));
    assert_eq!(selected.0, 6);
}

#[test]
fn mouse_moves_the_right_selection() {
    let mut selected = SelectedSettingsItem(0);
    let mut selected_confirm = SelectedConfirmItem(1);
    settings_mouse(&vec![2, 3], &ConfirmingReset(false), &mut selected, &mut selected_confirm);
    assert_eq!(selected.0, 3);
    assert_eq!(selected_confirm.0, 1);
    settings_mouse(&vec![100], &ConfirmingReset(true), &mut selected, &mut selected_confirm);
    assert_eq!(selected.0, 3);
    assert_eq!(selected_confirm.0, 0);
}

#[test]
fn highlights_mark_danger_and_dirty_save() {
    assert_eq!(settings_highlight(100, 0, false, true, 0), RowHighlight::ConfirmDanger);
    assert_eq!(settings_highlight(101, 0, false, true, 1), RowHighlight::Selected);
    assert_eq!(settings_highlight(101, 0, false, false, 1), RowHighlight::Normal);
    assert_eq!(settings_highlight(4, 4, true, false, 1), RowHighlight::SaveDirtySelected);
    assert_eq!(settings_highlight(4, 0, true, false, 1), RowHighlight::SaveDirty);
    assert_eq!(settings_highlight(1, 1, false, false, 1), RowHighlight::Selected);
    assert_eq!(settings_highlight(2, 1, false, false, 1), RowHighlight::Normal);
}

#[test]
fn volume_bar_draws_gauge_and_percent() {
    assert_eq!(volume_bar(7), "#######--- 70%");
    assert_eq!(volume_bar(0), "---------- 0%");
    assert_eq!(volume_bar(10), "########## 100%");
}

#[test]
fn row_text_shows_current_values() {
    let settings = GameSettings::default();
    assert_eq!(row_text(0, &settings), "Music: #######--- 70%");
    assert_eq!(row_text(1, &settings), "Sound: #######--- 70%");
    assert_eq!(row_text(2, &settings), "Resolution: 1280x720");
    assert_eq!(row_text(3, &settings), "Window: Windowed");
    assert_eq!(row_text(4, &settings), "Save");
    assert_eq!(row_text(5, &settings), "Reset Progress");
    assert_eq!(row_text(6, &settings), "Back");
}

#[test]
fn death_comments_match_totals() {
    assert_eq!(death_comment(0), " - flawless!");
    assert_eq!(death_comment(42), " - the answer!");
    assert_eq!(death_comment(69), " - nice");
    assert_eq!(death_comment(100), " - centurion!");
    assert_eq!(death_comment(201), " - respect for perseverance!");
    assert_eq!(death_comment(7), "");
}

#[test]
fn victory_confirm_returns_to_menu_and_discards() {
    let o = victory_action(true);
    assert_eq!(o.next_state, Some(GameState::Menu));
    assert!(o.discard_deaths);
    let idle = victory_action(false);
    assert_eq!(idle.next_state, None);
    assert!(!idle.discard_deaths);
}

#[test]
fn victory_text_includes_total_and_comment() {
    assert_eq!(victory_text(3), "You died: 3");
    assert_eq!(victory_text(0), "You died: 0 - flawless!");
    assert_eq!(victory_text(250), "You died: 250 - respect for perseverance!");
}

#[test]
fn log_ring_keeps_most_recent_fifty() {
    let mut ring = LogRingBuffer::new();
    for i in 0..55usize {
        ring.push(format!("line {}", i));
    }
    assert_eq!(ring.len(), 50);
    let text = ring.render();
    assert!(text.starts_with("line 5\n"));
    assert!(text.ends_with("\nline 54"));
}

#[test]
fn log_render_joins_with_newlines() {
    let mut ring = LogRingBuffer::new();
    assert_eq!(ring.render(), "");
    ring.push(String::from("first"));
    assert_eq!(ring.render(), "first");
    ring.push(String::from("second"));
    assert_eq!(ring.render(), "first\nsecond");
}
