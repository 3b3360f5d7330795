use simple_platformer::progress::load_progress_from;
use simple_platformer::progress::progress_from_json;
use simple_platformer::progress::progress_to_json;
use simple_platformer::progress::unlock;
use simple_platformer::progress::PlayerProgress;

#[test]
fn save_load_roundtrip() {
    let progress = PlayerProgress { max_unlocked_level: 3 };
    let json = progress_to_json(&progress);
    let loaded = load_progress_from(Some(json.as_str()));
    assert_eq!(loaded.max_unlocked_level, 3);
}

#[test]
fn load_missing_file_returns_default() {
    let loaded = load_progress_from(None);
    assert_eq!(loaded.max_unlocked_level, 0);
}

#[test]
fn load_corrupted_json_returns_default() {
    let loaded = load_progress_from(Some("not valid json {{{{"));
    assert_eq!(loaded.max_unlocked_level, 0);
}

#[test]
fn rendered_file_is_pretty_printed() {
    let progress = PlayerProgress { max_unlocked_level: 3 };
    let json = progress_to_json(&progress);
    assert_eq!(json, "{\n  \"max_unlocked_level\": 3\n}");
}

#[test]
fn roundtrip_large_value() {
    let progress = PlayerProgress { max_unlocked_level: 1234567890 };
    let json = progress_to_json(&progress);
    let loaded = load_progress_from(Some(json.as_str()));
    assert_eq!(loaded.max_unlocked_level, 1234567890);
}

#[test]
fn roundtrip_zero() {
    let progress = PlayerProgress { max_unlocked_level: 0 };
    let json = progress_to_json(&progress);
    assert_eq!(json, "{\n  \"max_unlocked_level\": 0\n}");
    let loaded = load_progress_from(Some(json.as_str()));
    assert_eq!(loaded.max_unlocked_level, 0);
}

#[test]
fn parse_accepts_compact_form() {
    let parsed = progress_from_json("{\"max_unlocked_level\":42}");
    assert_eq!(parsed, Some(PlayerProgress { max_unlocked_level: 42 }));
}

#[test]
fn parse_accepts_extra_whitespace() {
    let parsed = progress_from_json("  {\t\"max_unlocked_level\" :\r\n7 }\n");
    assert_eq!(parsed, Some(PlayerProgress { max_unlocked_level: 7 }));
}

#[test]
fn parse_rejects_leading_zero() {
    assert_eq!(progress_from_json("{\"max_unlocked_level\":007}"), None);
}

#[test]
fn parse_rejects_missing_digits() {
    assert_eq!(progress_from_json("{\"max_unlocked_level\":}"), None);
}

#[test]
fn parse_rejects_negative_value() {
    assert_eq!(progress_from_json("{\"max_unlocked_level\":-1}"), None);
}

#[test]
fn parse_rejects_trailing_garbage() {
    assert_eq!(progress_from_json("{\"max_unlocked_level\": 1} extra"), None);
}

#[test]
fn parse_rejects_wrong_key() {
    assert_eq!(progress_from_json("{\"max_unlocked\": 1}"), None);
}

#[test]
fn parse_rejects_empty_text() {
    assert_eq!(progress_from_json(""), None);
}

#[test]
fn parse_rejects_huge_value() {
    assert_eq!(
        progress_from_json("{\"max_unlocked_level\": 99999999999999999999999999}"),
        None
    );
}

#[test]
fn unlock_raises_and_writes_once() {
    let mut progress = PlayerProgress { max_unlocked_level: 1 };
    let wrote = unlock(&mut progress, 3);
    assert!(wrote);
    assert_eq!(progress.max_unlocked_level, 3);
}

#[test]
fn unlock_twice_is_idempotent() {
    let mut progress = PlayerProgress { max_unlocked_level: 0 };
    let first = unlock(&mut progress, 2);
    assert!(first);
    assert_eq!(progress.max_unlocked_level, 2);
    let second = unlock(&mut progress, 2);
    assert!(!second);
    assert_eq!(progress.max_unlocked_level, 2);
    let lower = unlock(&mut progress, 1);
    assert!(!lower);
    assert_eq!(progress.max_unlocked_level, 2);
}
