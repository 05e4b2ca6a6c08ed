use clipimg::config::AppConfig;
use clipimg::migrate::{migrate_config, migrate_config_object};

fn parse(text: &str) -> serde_json::Map<String, serde_json::Value> {
    match serde_json::from_str::<serde_json::Value>(text).unwrap() {
        serde_json::Value::Object(m) => m,
        _ => panic!("not an object"),
    }
}

const CURRENT: &str = r#"{
  "hotkey": "",
  "output_path": "/workspace/.clip",
  "save_dir": ".clip",
  "max_history_hours": 1,
  "max_log_size_mb": 1,
  "max_copy_size_mb": 10,
  "preview_hotkey": "Ctrl+Alt+P",
  "blocked_preview_ext": [],
  "show_startup_notification": true
}"#;

#[test]
fn migrate_drops_poll_interval() {
    let old = r#"{
            "hotkey": "",
            "output_path": "/workspace/.clip",
            "save_dir": ".clip",
            "poll_interval_ms": 800,
            "max_history_hours": 1
        }"#;
    let migrated = migrate_config(old);
    assert_ne!(migrated, old);
    assert!(!migrated.contains("poll_interval_ms"));
    let m = parse(&migrated);
    assert_eq!(m["output_path"], "/workspace/.clip");
    assert_eq!(m["max_history_hours"], 1);
}

#[test]
fn migrate_converts_days_to_hours() {
    let old = r#"{
            "hotkey": "",
            "output_path": "/workspace/.clip",
            "save_dir": ".clip",
            "max_history_days": 7
        }"#;
    let migrated = migrate_config(old);
    assert!(migrated.contains("max_history_hours"));
    assert!(!migrated.contains("max_history_days"));
    let m = parse(&migrated);
    assert_eq!(m["max_history_hours"], 168);
}

#[test]
fn migrate_keeps_hours_and_adds_later_fields() {
    let old = r#"{
            "hotkey": "",
            "output_path": "/workspace/.clip",
            "save_dir": ".clip",
            "max_history_hours": 4
        }"#;
    let m = parse(&migrate_config(old));
    assert_eq!(m["max_history_hours"], 4);
    assert_eq!(m["max_copy_size_mb"], 10);
    assert_eq!(m["preview_hotkey"], "Ctrl+Alt+P");
    assert_eq!(m["blocked_preview_ext"], serde_json::Value::Array(Vec::new()));
    assert_eq!(m["show_startup_notification"], true);
}

#[test]
fn migrate_leaves_current_files_untouched() {
    assert_eq!(migrate_config(CURRENT), CURRENT);
}

#[test]
fn migrate_leaves_non_objects_untouched() {
    for text in ["not valid json{{{", "[1, 2]", "42", ""] {
        assert_eq!(migrate_config(text), text);
    }
}

#[test]
fn hours_win_over_days() {
    let mut m = parse(r#"{"max_history_hours": 3, "max_history_days": 2}"#);
    assert!(migrate_config_object(&mut m));
    assert_eq!(m["max_history_hours"], 3);
    assert_eq!(m["max_history_days"], 2);
}

#[test]
fn days_that_are_not_a_number_are_dropped() {
    let mut m = parse(r#"{"max_history_days": "seven"}"#);
    migrate_config_object(&mut m);
    assert!(!m.contains_key("max_history_days"));
    assert!(!m.contains_key("max_history_hours"));
    assert_eq!(m.len(), 4);
}

#[test]
fn migrate_object_reports_no_change_on_current_object() {
    let mut m = parse(CURRENT);
    let before = m.clone();
    assert!(!migrate_config_object(&mut m));
    assert_eq!(m, before);
}

#[test]
fn legacy_output_path_is_cut_to_its_directory() {
    let mut c = AppConfig::default();
    c.output_path = "/workspace/.clip/latest.png".to_string();
    assert!(c.truncate_legacy_output_path());
    assert_eq!(c.output_path, "/workspace/.clip");
    assert!(!c.truncate_legacy_output_path());
    assert_eq!(c.output_path, "/workspace/.clip");
}

#[test]
fn repeated_legacy_suffixes_are_all_removed() {
    let mut c = AppConfig::default();
    c.output_path = "/a/latest.png/latest.png".to_string();
    assert!(c.truncate_legacy_output_path());
    assert_eq!(c.output_path, "/a");
    c.output_path = "/latest.png".to_string();
    assert!(c.truncate_legacy_output_path());
    assert_eq!(c.output_path, "");
    c.output_path = "/a/latest.pngx".to_string();
    assert!(!c.truncate_legacy_output_path());
    assert_eq!(c.output_path, "/a/latest.pngx");
}

#[test]
fn migrating_twice_changes_nothing_more() {
    let samples = [
        r#"{"hotkey": "", "output_path": "/w", "save_dir": ".clip", "poll_interval_ms": 800}"#,
        r#"{"hotkey": "", "output_path": "/w", "save_dir": ".clip", "max_history_days": 2}"#,
        r#"{"max_history_days": "x", "max_history_hours": 5}"#,
        CURRENT,
    ];
    for old in samples {
        let once = migrate_config(old);
        assert_eq!(migrate_config(&once), once);
    }
}

#[test]
fn migration_keeps_values_and_adds_defaults() {
    let old = r#"{"hotkey": "Alt+Insert", "output_path": "/w", "save_dir": "D:\\c",
        "poll_interval_ms": 800, "preview_hotkey": "", "extra": {"a": [1, -2, null]}}"#;
    let m = parse(&migrate_config(old));
    assert_eq!(m["hotkey"], "Alt+Insert");
    assert_eq!(m["save_dir"], "D:\\c");
    assert_eq!(m["preview_hotkey"], "");
    assert_eq!(m["extra"], parse(old)["extra"]);
    assert_eq!(m["max_copy_size_mb"], 10);
    assert_eq!(m["blocked_preview_ext"], serde_json::Value::Array(Vec::new()));
    assert_eq!(m["show_startup_notification"], true);
    assert!(!m.contains_key("poll_interval_ms"));
    let mut expected = parse(old);
    expected.remove("poll_interval_ms");
    expected.insert("max_copy_size_mb".to_string(), serde_json::Value::from(10u64));
    expected.insert("blocked_preview_ext".to_string(), serde_json::Value::Array(Vec::new()));
    expected.insert("show_startup_notification".to_string(), serde_json::Value::from(true));
    assert_eq!(m, expected);
}

#[test]
fn non_numeric_days_alone_leave_the_text_unchanged() {
    let text = r#"{"max_history_days": "x", "max_copy_size_mb": 10, "preview_hotkey": "",
        "blocked_preview_ext": [], "show_startup_notification": true}"#;
    assert_eq!(migrate_config(text), text);
}

#[test]
fn large_day_counts_wrap() {
    let mut m = parse(r#"{"max_history_days": 18446744073709551615}"#);
    migrate_config_object(&mut m);
    assert_eq!(m["max_history_hours"], u64::MAX.wrapping_mul(24));
}
