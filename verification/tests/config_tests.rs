use std::path::PathBuf;

use clipimg::config::{is_windows_absolute, join_path, AppConfig};

#[test]
fn test_default_config() {
    let config = AppConfig::default();
    assert_eq!(config.hotkey, "");
    assert_eq!(config.output_path, "/workspace/.clip");
    assert_eq!(config.save_dir, ".clip");
    assert_eq!(config.max_history_hours, 1);
    assert_eq!(config.max_copy_size_mb, 10);
    assert_eq!(config.preview_hotkey, "Ctrl+Alt+P");
}

#[test]
fn test_validate_empty_hotkey_is_ok() {
    let mut config = AppConfig::default();
    config.hotkey = "".to_string();
    assert!(config.validate().is_ok());
    assert!(!config.is_hotkey_mode());
}

#[test]
fn test_is_hotkey_mode() {
    let config = AppConfig::default();
    assert!(!config.is_hotkey_mode());

    let mut config_with_hotkey = AppConfig::default();
    config_with_hotkey.hotkey = "Alt+Insert".to_string();
    assert!(config_with_hotkey.is_hotkey_mode());
}

#[test]
fn test_validate_empty_output_path() {
    let mut config = AppConfig::default();
    config.output_path = "  ".to_string();
    assert!(config.validate().is_err());
}

#[test]
fn test_resolved_save_dir_relative() {
    let config = AppConfig {
        save_dir: ".clip".to_string(),
        ..Default::default()
    };
    let exe_dir = "/some/path/clipImg";
    let resolved = config.resolved_save_dir(exe_dir);
    assert_eq!(PathBuf::from(resolved), PathBuf::from("/some/path/clipImg/.clip"));
}

#[test]
fn test_resolved_save_dir_absolute() {
    let config = AppConfig {
        save_dir: "E:\\WorkingProjects\\workspace\\.clip".to_string(),
        ..Default::default()
    };
    let exe_dir = "/some/path/clipImg/clipimg-app";
    let resolved = config.resolved_save_dir(exe_dir);
    assert_eq!(
        PathBuf::from(resolved),
        PathBuf::from("E:\\WorkingProjects\\workspace\\.clip")
    );
}

#[test]
fn test_latest_file_path() {
    let config = AppConfig {
        save_dir: ".clip".to_string(),
        ..Default::default()
    };
    let exe_dir = "/workspace/clipImg";
    let latest = config.latest_file_path(exe_dir);
    assert_eq!(PathBuf::from(latest), PathBuf::from("/workspace/clipImg/.clip/latest_file.png"));
}

#[test]
fn test_resolved_output_path() {
    let config = AppConfig {
        output_path: "/workspace/.clip".to_string(),
        ..Default::default()
    };
    assert_eq!(config.resolved_output_path(), "/workspace/.clip/latest_file.png");
}

#[test]
fn test_resolved_output_path_trailing_slash() {
    let config = AppConfig {
        output_path: "/workspace/.clip/".to_string(),
        ..Default::default()
    };
    assert_eq!(config.resolved_output_path(), "/workspace/.clip/latest_file.png");
}

#[test]
fn test_resolved_output_path_for() {
    let config = AppConfig {
        output_path: "/workspace/.clip".to_string(),
        ..Default::default()
    };
    assert_eq!(config.resolved_output_path_for("png"), "/workspace/.clip/latest_file.png");
    assert_eq!(config.resolved_output_path_for("pdf"), "/workspace/.clip/latest_file.pdf");
    assert_eq!(config.resolved_output_path_for(""), "/workspace/.clip/latest_file");
}

#[test]
fn default_config_has_remaining_defaults() {
    let config = AppConfig::default();
    assert_eq!(config.max_log_size_mb, 1);
    assert_eq!(config.max_copy_files, 10);
    assert!(config.blocked_preview_ext.is_empty());
    assert!(config.show_startup_notification);
}

#[test]
fn validate_reports_blank_save_dir() {
    let mut config = AppConfig::default();
    config.save_dir = "\t \u{3000}".to_string();
    assert_eq!(config.validate(), Err("save_dir 不能为空".to_string()));
    config.output_path = "".to_string();
    assert_eq!(config.validate(), Err("output_path 不能为空".to_string()));
}

#[test]
fn hotkey_of_only_whitespace_is_clipboard_mode() {
    let mut config = AppConfig::default();
    config.hotkey = " \u{2003}\n".to_string();
    assert!(!config.is_hotkey_mode());
    config.hotkey = " Ctrl+Shift+V ".to_string();
    assert!(config.is_hotkey_mode());
}

#[test]
fn output_dir_strips_every_trailing_slash() {
    let config = AppConfig {
        output_path: "/workspace/.clip///".to_string(),
        ..Default::default()
    };
    assert_eq!(config.output_dir(), "/workspace/.clip");
    let root = AppConfig {
        output_path: "///".to_string(),
        ..Default::default()
    };
    assert_eq!(root.output_dir(), "");
}

#[test]
fn container_path_joins_output_path_and_name() {
    let config = AppConfig {
        output_path: "/home/user/.clip".to_string(),
        ..Default::default()
    };
    assert_eq!(
        config.container_path_for("clip_20260419_120000789.png"),
        "/home/user/.clip/clip_20260419_120000789.png"
    );
}

#[test]
fn windows_absolute_forms() {
    assert!(is_windows_absolute("C:\\x"));
    assert!(is_windows_absolute("e:/x"));
    assert!(is_windows_absolute("\\\\wsl$\\debian\\home\\.clip"));
    assert!(!is_windows_absolute("C:"));
    assert!(!is_windows_absolute(".clip"));
    assert!(!is_windows_absolute("é:\\x"));
}

#[test]
fn unc_save_dir_is_used_as_is() {
    let config = AppConfig {
        save_dir: "\\\\wsl.localhost\\debian\\home\\user\\.clip".to_string(),
        ..Default::default()
    };
    assert_eq!(
        config.resolved_save_dir("C:\\Tools"),
        "\\\\wsl.localhost\\debian\\home\\user\\.clip"
    );
    let unix = AppConfig {
        save_dir: "/var/clips".to_string(),
        ..Default::default()
    };
    assert_eq!(unix.resolved_save_dir("/opt/app"), "/var/clips");
}

#[test]
fn join_path_separators() {
    assert_eq!(join_path("", "a"), "a");
    assert_eq!(join_path("/x/", "a"), "/x/a");
    assert_eq!(join_path("C:\\x\\", "a"), "C:\\x\\a");
    assert_eq!(join_path("/x", "a"), "/x/a");
    assert_eq!(join_path("C:\\x", "a"), "C:\\x\\a");
    assert_eq!(join_path("\\\\wsl$\\d", "a"), "\\\\wsl$\\d\\a");
    assert_eq!(
        AppConfig::default().latest_png_path("/w"),
        "/w/.clip/latest_file.png"
    );
    assert_eq!(
        AppConfig::default().latest_png_path("C:\\Tools\\clipImg"),
        "C:\\Tools\\clipImg\\.clip\\latest_file.png"
    );
}
