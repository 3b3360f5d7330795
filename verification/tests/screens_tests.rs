use simple_platformer::level::CurrentLevel;
use simple_platformer::level_select::is_unlocked;
use simple_platformer::level_select::level_select_action;
use simple_platformer::level_select::level_select_navigation;
use simple_platformer::level_select::level_select_rows;
use simple_platformer::level_select::total_items;
use simple_platformer::level_select::SelectedLevelItem;
use simple_platformer::menu::menu_action;
use simple_platformer::menu::menu_navigation;
use simple_platformer::menu::SelectedMenuItem;
use simple_platformer::pause::pause_action;
use simple_platformer::pause::pause_toggle;
use simple_platformer::pause::SelectedPauseItem;
use simple_platformer::player::ground_detection;
use simple_platformer::player::resolve_movement;
use simple_platformer::player::Grounded;
use simple_platformer::player::HorizontalDir;
use simple_platformer::progress::PlayerProgress;
use simple_platformer::states::GameState;
use simple_platformer::states::SettingsOrigin;
use simple_platformer::ui::hover_selection;
use simple_platformer::ui::row_highlight;
use simple_platformer::ui::RowHighlight;

#[test]
fn menu_navigation_wraps_both_ways() {
    let mut selected = SelectedMenuItem(0);
    menu_navigation(true, false, &mut selected);
    assert_eq!(selected.0, 2);
    menu_navigation(false, true, &mut selected);
    assert_eq!(selected.0, 0);
    menu_navigation(false, true, &mut selected);
    assert_eq!(selected.0, 1);
}

#[test]
fn menu_starts_game() {
    let mut origin = SettingsOrigin::Menu;
    let o = menu_action(true, &SelectedMenuItem(0), &mut origin);
    assert_eq!(o.next_state, Some(GameState::Playing));
    assert!(!o.quit);
}

#[test]
fn menu_opens_settings_with_menu_origin() {
    let mut origin = SettingsOrigin::Paused;
    let o = menu_action(true, &SelectedMenuItem(1), &mut origin);
    assert_eq!(o.next_state, Some(GameState::Settings));
    assert_eq!(origin, SettingsOrigin::Menu);
}

#[test]
fn menu_quit_row_quits() {
    let mut origin = SettingsOrigin::Menu;
    let o = menu_action(true, &SelectedMenuItem(2), &mut origin);
    assert_eq!(o.next_state, None);
    assert!(o.quit);
}

#[test]
fn menu_without_enter_does_nothing() {
    let mut origin = SettingsOrigin::Menu;
    let o = menu_action(false, &SelectedMenuItem(2), &mut origin);
    assert_eq!(o.next_state, None);
    assert!(!o.quit);
}

#[test]
fn escape_toggles_pause() {
    assert_eq!(pause_toggle(true, &GameState::Playing), Some(GameState::Paused));
    assert_eq!(pause_toggle(true, &GameState::Paused), Some(GameState::Playing));
    assert_eq!(pause_toggle(true, &GameState::Menu), None);
    assert_eq!(pause_toggle(false, &GameState::Playing), None);
}

#[test]
fn pause_settings_records_pause_origin() {
    let mut origin = SettingsOrigin::Menu;
    let o = pause_action(true, &SelectedPauseItem(1), &mut origin);
    assert_eq!(o.next_state, Some(GameState::Settings));
    assert_eq!(origin, SettingsOrigin::Paused);
    assert!(!o.discard_deaths);
}

#[test]
fn pause_to_menu_discards_deaths() {
    let mut origin = SettingsOrigin::Menu;
    let o = pause_action(true, &SelectedPauseItem(2), &mut origin);
    assert_eq!(o.next_state, Some(GameState::Menu));
    assert!(o.discard_deaths);
}

#[test]
fn fresh_install_shows_only_first_level_unlocked() {
    let progress = PlayerProgress { max_unlocked_level: 0 };
    let rows = level_select_rows(0, &progress);
    assert_eq!(rows.len(), total_items());
    assert!(rows[0].unlocked);
    for row in rows.iter().take(5).skip(1) {
        assert!(!row.unlocked);
        assert_eq!(row.highlight, RowHighlight::Locked);
    }
    assert!(rows[5].unlocked);
    assert!(is_unlocked(0, &progress));
    assert!(!is_unlocked(1, &progress));
}

#[test]
fn locked_level_is_rejected_silently() {
    let progress = PlayerProgress { max_unlocked_level: 0 };
    let mut current = CurrentLevel(0);
    let next = level_select_action(false, true, &SelectedLevelItem(3), &progress, &mut current);
    assert_eq!(next, None);
    assert_eq!(current.0, 0);
}

#[test]
fn unlocked_level_starts_play() {
    let progress = PlayerProgress { max_unlocked_level: 2 };
    let mut current = CurrentLevel(0);
    let next = level_select_action(false, true, &SelectedLevelItem(2), &progress, &mut current);
    assert_eq!(next, Some(GameState::Playing));
    assert_eq!(current.0, 2);
}

#[test]
fn back_row_and_escape_return_to_menu() {
    let progress = PlayerProgress { max_unlocked_level: 2 };
    let mut current = CurrentLevel(1);
    assert_eq!(
        level_select_action(false, true, &SelectedLevelItem(5), &progress, &mut current),
        Some(GameState::Menu)
    );
    assert_eq!(
        level_select_action(true, false, &SelectedLevelItem(0), &progress, &mut current),
        Some(GameState::Menu)
    );
    assert_eq!(current.0, 1);
}

#[test]
fn level_select_navigation_wraps_over_back_row() {
    let mut selected = SelectedLevelItem(0);
    level_select_navigation(true, false, &mut selected);
    assert_eq!(selected.0, 5);
    level_select_navigation(false, true, &mut selected);
    assert_eq!(selected.0, 0);
}

#[test]
fn movement_cancels_opposite_directions() {
    assert_eq!(resolve_movement(true, true, false, true).dir, HorizontalDir::Still);
    assert_eq!(resolve_movement(true, false, false, true).dir, HorizontalDir::Left);
    assert_eq!(resolve_movement(false, true, false, true).dir, HorizontalDir::Right);
}

#[test]
fn jump_needs_ground() {
    assert!(resolve_movement(false, false, true, true).jump);
    assert!(!resolve_movement(false, false, true, false).jump);
    assert!(!resolve_movement(false, false, false, true).jump);
}

#[test]
fn ground_detection_follows_sensor() {
    let mut grounded = Grounded(false);
    ground_detection(&mut grounded, true);
    assert!(grounded.0);
    ground_detection(&mut grounded, false);
    assert!(!grounded.0);
}

#[test]
fn hover_moves_selection_to_last_row() {
    assert_eq!(hover_selection(&vec![], 1), 1);
    assert_eq!(hover_selection(&vec![2], 1), 2);
    assert_eq!(hover_selection(&vec![2, 0, 4], 1), 4);
}

#[test]
fn row_highlight_marks_only_selected() {
    assert_eq!(row_highlight(1, 1), RowHighlight::Selected);
    assert_eq!(row_highlight(0, 1), RowHighlight::Normal);
}
