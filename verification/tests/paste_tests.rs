use std::path::PathBuf;

use clipimg::config::AppConfig;
use clipimg::paste::{build_file_clipboard_params, eq_ignore_ascii_case, is_executable_file};

#[test]
fn test_hdrop_uses_source_files_not_clip_copies() {
    let config = AppConfig {
        output_path: "/workspace/.clip".to_string(),
        ..Default::default()
    };

    let source_files = vec![
        PathBuf::from(r"C:\Users\test\photo.png"),
        PathBuf::from(r"C:\Users\test\doc.pdf"),
    ];
    let saved_names = vec![
        "clip_20260419_100000123.png".to_string(),
        "clip_20260419_100000456.pdf".to_string(),
    ];

    let (text_paths, hdrop_paths) = build_file_clipboard_params(&source_files, &saved_names, &config);

    assert!(text_paths.contains("/workspace/.clip/clip_20260419_100000123.png"));
    assert!(text_paths.contains("/workspace/.clip/clip_20260419_100000456.pdf"));

    assert_eq!(hdrop_paths, source_files);
}

#[test]
fn test_hdrop_single_file_uses_source() {
    let config = AppConfig {
        output_path: "/home/user/.clip".to_string(),
        ..Default::default()
    };

    let source_files = vec![PathBuf::from(r"D:\screenshots\shot.png")];
    let saved_names = vec!["clip_20260419_120000789.png".to_string()];

    let (text_paths, hdrop_paths) = build_file_clipboard_params(&source_files, &saved_names, &config);

    assert!(text_paths.contains("/home/user/.clip/clip_20260419_120000789.png"));
    assert_eq!(hdrop_paths[0], PathBuf::from(r"D:\screenshots\shot.png"));
}

#[test]
fn clipboard_text_is_one_line_per_file() {
    let config = AppConfig {
        output_path: "/w".to_string(),
        ..Default::default()
    };
    let (text, files) = build_file_clipboard_params::<PathBuf>(&[], &["a".to_string(), "b".to_string()], &config);
    assert_eq!(text, "/w/a\n/w/b\n");
    assert!(files.is_empty());
}

#[test]
fn executable_extensions_are_blocked() {
    let none: Vec<String> = Vec::new();
    assert!(is_executable_file(Some("exe"), &none));
    assert!(is_executable_file(Some("BAT"), &none));
    assert!(is_executable_file(Some("Ps1"), &none));
    assert!(!is_executable_file(Some("png"), &none));
    assert!(!is_executable_file(None, &none));
    let user = vec!["DLL".to_string(), "reg".to_string()];
    assert!(is_executable_file(Some("dll"), &user));
    assert!(is_executable_file(Some("REG"), &user));
    assert!(!is_executable_file(Some("txt"), &user));
}

#[test]
fn ascii_case_insensitive_equality_matches_std() {
    for (a, b) in [("abc", "ABC"), ("Ab", "aB"), ("é", "É"), ("x", "xy"), ("", "")] {
        assert_eq!(eq_ignore_ascii_case(a, b), a.eq_ignore_ascii_case(b));
    }
}
