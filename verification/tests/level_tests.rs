use simple_platformer::level::check_exit;
use simple_platformer::level::check_spikes;
use simple_platformer::level::grid_to_world;
use simple_platformer::level::GridPos;
use simple_platformer::level::LevelData;
use simple_platformer::level::level_colliders;
use simple_platformer::level::merge_platform_runs;
use simple_platformer::level::playing_step;
use simple_platformer::level::run_collider;
use simple_platformer::level::transition_to_playing;
use simple_platformer::level::CurrentLevel;
use simple_platformer::level::PlatformRun;
use simple_platformer::level::TileEntry;
use simple_platformer::level::TileKind;
use simple_platformer::player::DeathCounter;
use simple_platformer::progress::PlayerProgress;
use simple_platformer::states::GameState;

fn tile(x: i32, y: i32, kind: TileKind) -> TileEntry {
    TileEntry { x, y, kind }
}

fn sorted_runs(mut runs: Vec<PlatformRun>) -> Vec<PlatformRun> {
    runs.sort_by(|a, b| (a.y, a.start_x).cmp(&(b.y, b.start_x)));
    runs
}

#[test]
fn merge_zero_tiles_yields_zero_runs() {
    let tiles: Vec<TileEntry> = Vec::new();
    let runs = merge_platform_runs(&tiles);
    assert_eq!(runs.len(), 0);
}

#[test]
fn merge_single_tile_yields_run_of_one() {
    let tiles = vec![tile(5, -2, TileKind::Platform)];
    let runs = merge_platform_runs(&tiles);
    assert_eq!(runs.len(), 1);
    assert_eq!(runs[0], PlatformRun { start_x: 5, y: -2, length: 1 });
    let rect = run_collider(&runs[0]);
    assert_eq!(rect.width, 32);
    assert_eq!(rect.height, 32);
    assert_eq!(rect.center_x, 5 * 32);
    assert_eq!(rect.center_y, -2 * 32);
}

#[test]
fn merge_partitions_rows_into_maximal_runs() {
    let tiles = vec![
        tile(0, 0, TileKind::Platform),
        tile(1, 0, TileKind::Platform),
        tile(2, 0, TileKind::Platform),
        tile(4, 0, TileKind::Platform),
        tile(0, 1, TileKind::Platform),
    ];
    let runs = sorted_runs(merge_platform_runs(&tiles));
    assert_eq!(
        runs,
        vec![
            PlatformRun { start_x: 0, y: 0, length: 3 },
            PlatformRun { start_x: 4, y: 0, length: 1 },
            PlatformRun { start_x: 0, y: 1, length: 1 },
        ]
    );
}

#[test]
fn merge_collapses_duplicate_tiles() {
    let tiles = vec![
        tile(0, 0, TileKind::Platform),
        tile(0, 0, TileKind::Platform),
        tile(1, 0, TileKind::Platform),
    ];
    let runs = merge_platform_runs(&tiles);
    assert_eq!(runs.len(), 1);
    assert_eq!(runs[0], PlatformRun { start_x: 0, y: 0, length: 2 });
}

#[test]
fn merge_ignores_spike_tiles() {
    let tiles = vec![
        tile(0, 0, TileKind::Platform),
        tile(1, 0, TileKind::Spikes),
        tile(2, 0, TileKind::Platform),
    ];
    let runs = sorted_runs(merge_platform_runs(&tiles));
    assert_eq!(
        runs,
        vec![
            PlatformRun { start_x: 0, y: 0, length: 1 },
            PlatformRun { start_x: 2, y: 0, length: 1 },
        ]
    );
}

#[test]
fn merge_keeps_rows_apart() {
    let tiles = vec![
        tile(0, 0, TileKind::Platform),
        tile(0, 1, TileKind::Platform),
        tile(1, 1, TileKind::Platform),
    ];
    let runs = sorted_runs(merge_platform_runs(&tiles));
    assert_eq!(
        runs,
        vec![
            PlatformRun { start_x: 0, y: 0, length: 1 },
            PlatformRun { start_x: 0, y: 1, length: 2 },
        ]
    );
}

#[test]
fn run_collider_centers_wide_runs() {
    let run = PlatformRun { start_x: 2, y: 1, length: 3 };
    let rect = run_collider(&run);
    assert_eq!(rect.width, 96);
    assert_eq!(rect.center_x, 2 * 32 + (96 - 32) / 2);
    assert_eq!(rect.center_y, 32);
}

#[test]
fn grid_scales_by_tile_size() {
    assert_eq!(grid_to_world(0), 0);
    assert_eq!(grid_to_world(3), 96);
    assert_eq!(grid_to_world(-1), -32);
}

#[test]
fn exit_on_middle_level_advances_and_unlocks() {
    let mut current = CurrentLevel(2);
    let mut progress = PlayerProgress { max_unlocked_level: 2 };
    let outcome = check_exit(true, &mut current, &mut progress);
    assert_eq!(current.0, 3);
    assert_eq!(progress.max_unlocked_level, 3);
    assert!(outcome.save_progress);
    assert_eq!(outcome.next_state, Some(GameState::LevelTransition));
    assert_eq!(transition_to_playing(), GameState::Playing);
}

#[test]
fn exit_on_replayed_level_writes_nothing() {
    let mut current = CurrentLevel(0);
    let mut progress = PlayerProgress { max_unlocked_level: 4 };
    let outcome = check_exit(true, &mut current, &mut progress);
    assert_eq!(current.0, 1);
    assert_eq!(progress.max_unlocked_level, 4);
    assert!(!outcome.save_progress);
    assert_eq!(outcome.next_state, Some(GameState::LevelTransition));
}

#[test]
fn exit_on_last_level_reaches_victory() {
    let mut current = CurrentLevel(4);
    let mut progress = PlayerProgress { max_unlocked_level: 4 };
    let outcome = check_exit(true, &mut current, &mut progress);
    assert_eq!(current.0, 5);
    assert_eq!(progress.max_unlocked_level, 5);
    assert!(outcome.save_progress);
    assert_eq!(outcome.next_state, Some(GameState::Victory));
}

#[test]
fn exit_without_overlap_changes_nothing() {
    let mut current = CurrentLevel(1);
    let mut progress = PlayerProgress { max_unlocked_level: 4 };
    let outcome = check_exit(false, &mut current, &mut progress);
    assert_eq!(current.0, 1);
    assert_eq!(progress.max_unlocked_level, 4);
    assert!(!outcome.save_progress);
    assert_eq!(outcome.next_state, None);
}

#[test]
fn spikes_respawn_and_count_deaths() {
    let mut counter = DeathCounter { current_level: 1, total: 2 };
    let respawn = check_spikes(true, &mut counter);
    assert!(respawn);
    assert_eq!(counter.current_level, 2);
    assert_eq!(counter.total, 3);
}

#[test]
fn no_spike_overlap_changes_nothing() {
    let mut counter = DeathCounter { current_level: 1, total: 2 };
    let respawn = check_spikes(false, &mut counter);
    assert!(!respawn);
    assert_eq!(counter.current_level, 1);
    assert_eq!(counter.total, 2);
}

#[test]
fn empty_level_keeps_valid_spawn_and_exit() {
    let level = LevelData {
        name: String::from("empty"),
        spawn: GridPos { x: 1, y: 2 },
        exit: GridPos { x: 8, y: 2 },
        tiles: Vec::new(),
    };
    let runs = merge_platform_runs(&level.tiles);
    assert_eq!(runs.len(), 0);
    assert_eq!(level.tiles.len(), 0);
    assert_eq!(level.spawn, GridPos { x: 1, y: 2 });
    assert_eq!(level.exit, GridPos { x: 8, y: 2 });
    assert_eq!(grid_to_world(level.spawn.x), 32);
    assert_eq!(grid_to_world(level.exit.x), 256);
}

#[test]
fn level_colliders_builds_one_rect_per_run() {
    let tiles = vec![
        tile(0, 0, TileKind::Platform),
        tile(1, 0, TileKind::Platform),
        tile(3, 2, TileKind::Platform),
        tile(4, 2, TileKind::Spikes),
    ];
    let (runs, rects) = level_colliders(&tiles);
    assert_eq!(runs.len(), 2);
    assert_eq!(rects.len(), 2);
    for (run, rect) in runs.iter().zip(rects.iter()) {
        assert_eq!(rect.width, 32 * run.length as i64);
        assert_eq!(rect.height, 32);
        assert_eq!(rect.center_y, 32 * run.y as i64);
        assert_eq!(rect.center_x, 32 * run.start_x as i64 + (rect.width - 32) / 2);
    }
}

#[test]
fn exit_takes_priority_but_death_still_counts() {
    let mut current = CurrentLevel(1);
    let mut progress = PlayerProgress { max_unlocked_level: 1 };
    let mut counter = DeathCounter { current_level: 0, total: 0 };
    let o = playing_step(true, true, &mut current, &mut progress, &mut counter);
    assert_eq!(o.next_state, Some(GameState::LevelTransition));
    assert!(o.save_progress);
    assert!(o.respawn);
    assert_eq!(current.0, 2);
    assert_eq!(progress.max_unlocked_level, 2);
    assert_eq!(counter.total, 1);
}

#[test]
fn quiet_step_changes_nothing() {
    let mut current = CurrentLevel(1);
    let mut progress = PlayerProgress { max_unlocked_level: 3 };
    let mut counter = DeathCounter { current_level: 0, total: 0 };
    let o = playing_step(false, false, &mut current, &mut progress, &mut counter);
    assert_eq!(o.next_state, None);
    assert!(!o.save_progress);
    assert!(!o.respawn);
    assert_eq!(current.0, 1);
    assert_eq!(progress.max_unlocked_level, 3);
    assert_eq!(counter.total, 0);
}
