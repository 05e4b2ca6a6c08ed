use clipimg::capture::{encode_capture, has_png_signature};
use clipimg::config::AppConfig;
use clipimg::droplist::{hdrop_file_names, hdrop_file_paths, notify_file_names};
use clipimg::input::hdrop_payload;
use clipimg::logger::{log_line, needs_rotation};
use clipimg::session::{
    autostart_command, autostart_points_here, clipboard_reaction, hotkey_action, is_self_triggered,
    keep_hotkey_manager, mode_name, plan_reload, preview_label, startup_notice, startup_tip,
    status_label, ClipboardReaction, HotkeyAction,
};
use clipimg::text::trim;

fn with_hotkey(h: &str) -> AppConfig {
    let mut c = AppConfig::default();
    c.hotkey = h.to_string();
    c
}

#[test]
fn status_label_names_the_mode() {
    assert_eq!(status_label("1.0.12", "", &with_hotkey("Alt+Insert")), "clipImg v1.0.12 [Alt+Insert]");
    assert_eq!(status_label("1.0.12", " (debug)", &AppConfig::default()), "clipImg v1.0.12 (debug) [剪贴板模式]");
}

#[test]
fn preview_label_trims_the_hotkey() {
    let mut c = AppConfig::default();
    assert_eq!(preview_label(&c), "预览快捷键: Ctrl+Alt+P");
    c.preview_hotkey = "  Ctrl+Q \t".to_string();
    assert_eq!(preview_label(&c), "预览快捷键: Ctrl+Q");
    c.preview_hotkey = "   ".to_string();
    assert_eq!(preview_label(&c), "预览功能已关闭");
}

#[test]
fn mode_names_and_startup_text() {
    assert_eq!(mode_name(&AppConfig::default()), "多格式剪贴板模式 (方案 C)");
    assert_eq!(mode_name(&with_hotkey("Alt+Insert")), "热键模式 (方案 A)");
    assert_eq!(startup_tip("1.0.12", &AppConfig::default()), "clipImg v1.0.12 已启动 [剪贴板模式]");
    assert_eq!(startup_tip("2", &with_hotkey("Ctrl+Shift+V")), "clipImg v2 已启动 [热键模式 Ctrl+Shift+V]");
    let c = AppConfig::default();
    assert_eq!(
        startup_notice("1.0.12", &c).unwrap(),
        "clipImg v1.0.12 已启动 [剪贴板模式]\n\n如不需要此提示，请在配置文件中将 show_startup_notification 设为 false。"
    );
    let mut quiet = AppConfig::default();
    quiet.show_startup_notification = false;
    assert!(startup_notice("1.0.12", &quiet).is_none());
}

#[test]
fn reload_plan_compares_hotkeys() {
    let old = AppConfig::default();
    let same = plan_reload(&old, &AppConfig::default());
    assert!(!same.hotkey_changed && !same.preview_changed && same.need_manager);

    let mut new = with_hotkey("Alt+Insert");
    new.preview_hotkey = "".to_string();
    let p = plan_reload(&old, &new);
    assert!(p.hotkey_changed && p.preview_changed && p.need_manager);

    let none = plan_reload(&new, &AppConfig { hotkey: " ".to_string(), preview_hotkey: "\t".to_string(), ..AppConfig::default() });
    assert!(none.hotkey_changed && none.preview_changed && !none.need_manager);

    let p2 = plan_reload(&with_hotkey("Alt+Insert"), &with_hotkey("Alt+Home"));
    assert!(p2.hotkey_changed && !p2.preview_changed);
}

#[test]
fn hotkey_manager_kept_only_while_needed() {
    assert!(keep_hotkey_manager(&with_hotkey("Alt+Insert"), false));
    assert!(keep_hotkey_manager(&AppConfig::default(), true));
    assert!(!keep_hotkey_manager(&AppConfig::default(), false));
}

#[test]
fn own_clipboard_echo_window() {
    assert!(is_self_triggered(Some(0)));
    assert!(is_self_triggered(Some(499)));
    assert!(!is_self_triggered(Some(500)));
    assert!(!is_self_triggered(None));
}

#[test]
fn publishing_choice_and_hotkey_actions() {
    assert!(matches!(hotkey_action(true, true, true), HotkeyAction::Preview));
    assert!(matches!(hotkey_action(true, true, false), HotkeyAction::Preview));
    assert!(matches!(hotkey_action(true, false, true), HotkeyAction::TypeLatestPath));
    assert!(matches!(hotkey_action(true, false, false), HotkeyAction::Ignore));
    assert!(matches!(hotkey_action(false, true, true), HotkeyAction::Ignore));
}

#[test]
fn autostart_value_round() {
    let exe = "C:\\Tools\\clipImg\\clipimg.exe";
    let v = autostart_command(exe);
    assert_eq!(v, "\"C:\\Tools\\clipImg\\clipimg.exe\"");
    assert!(autostart_points_here(&v, exe, false));
    assert!(!autostart_points_here("\"D:\\other.exe\"", exe, false));
    assert!(autostart_points_here("\"D:\\other.exe\"", exe, true));
}

#[test]
fn log_lines_and_rotation() {
    assert_eq!(log_line("2026-04-07 12:00:00", "INFO", "启动"), "[2026-04-07 12:00:00 INFO] 启动");
    assert!(!needs_rotation(1048576, 1048576));
    assert!(needs_rotation(1048577, 1048576));
}

#[test]
fn trim_agrees_with_std() {
    for s in ["", "  ", " a ", "\u{3000}路径\t", "a b", "\n\nx"] {
        assert_eq!(trim(s), s.trim(), "{:?}", s);
    }
}

#[test]
fn hdrop_block_round_trips() {
    let paths = vec![
        "C:\\Users\\test\\photo.png".to_string(),
        "D:\\文档\\报告 2026.pdf".to_string(),
        "E:\\😀.txt".to_string(),
    ];
    let block = hdrop_payload(&paths);
    assert_eq!(hdrop_file_paths(&block), paths);
    let names = hdrop_file_names(&block);
    assert_eq!(names.len(), 3);
    assert_eq!(names[1], "D:\\文档\\报告 2026.pdf".encode_utf16().collect::<Vec<u16>>());
}

#[test]
fn hdrop_block_edge_cases() {
    assert!(hdrop_file_paths(&[]).is_empty());
    assert!(hdrop_file_paths(&[20, 0, 0]).is_empty());
    // offset past the end
    assert!(hdrop_file_paths(&[200, 0, 0, 0, 0, 0]).is_empty());
    // an unterminated last name is dropped
    let mut b = vec![4u8, 0, 0, 0];
    for u in "ab".encode_utf16() {
        b.extend_from_slice(&u.to_le_bytes());
    }
    b.extend_from_slice(&[0, 0]);
    for u in "cd".encode_utf16() {
        b.extend_from_slice(&u.to_le_bytes());
    }
    assert_eq!(hdrop_file_paths(&b), vec!["ab".to_string()]);
    // an empty list
    assert!(hdrop_file_paths(&hdrop_payload(&Vec::new())).is_empty());
    // lone surrogates are replaced
    let bad = [4u8, 0, 0, 0, 0x00, 0xD8, 0x41, 0x00, 0, 0];
    assert_eq!(hdrop_file_paths(&bad), vec!["\u{FFFD}A".to_string()]);
}

#[test]
fn capture_encodes_png_of_the_pixels() {
    let rgba: Vec<u8> = (0u8..16).collect();
    let png = encode_capture(2, 2, &rgba).unwrap();
    assert!(has_png_signature(&png));
    let back = image::load_from_memory(&png).unwrap().to_rgba8();
    assert_eq!(back.dimensions(), (2, 2));
    assert_eq!(back.into_raw(), rgba);
    // extra bytes past the image are not encoded
    let mut longer = rgba.clone();
    longer.extend_from_slice(&[9, 9, 9, 9]);
    let png2 = encode_capture(2, 2, &longer).unwrap();
    assert_eq!(image::load_from_memory(&png2).unwrap().to_rgba8().into_raw(), rgba);
    assert!(encode_capture(2, 2, &rgba[..15]).is_none());
}

#[test]
fn png_signature_needs_eight_bytes() {
    assert!(has_png_signature(b"\x89PNG\r\n\x1a\n"));
    assert!(!has_png_signature(b"\x89PNG\r\n\x1a"));
    assert!(!has_png_signature(b"not a png"));
}

#[test]
fn capture_with_a_zero_side_is_not_encoded() {
    assert!(encode_capture(0, 2, &[]).is_none());
    assert!(encode_capture(2, 0, &[1, 2, 3, 4]).is_none());
    assert!(encode_capture(1, 1, &[1, 2, 3, 4]).is_some());
}

#[test]
fn clipboard_reaction_cases() {
    let clip = AppConfig::default();
    let hot = with_hotkey("Alt+Insert");
    let r = |c: &AppConfig, since, files, png, img| clipboard_reaction(c, since, files, png, img);
    assert!(matches!(r(&clip, Some(100), 1, true, false), ClipboardReaction::Ignore));
    assert!(matches!(r(&clip, Some(500), 1, true, false), ClipboardReaction::PublishImage));
    assert!(matches!(r(&clip, None, 1, false, false), ClipboardReaction::PublishFiles));
    assert!(matches!(r(&clip, None, 3, true, false), ClipboardReaction::PublishFiles));
    assert!(matches!(r(&clip, None, 0, false, true), ClipboardReaction::PublishImage));
    assert!(matches!(r(&clip, None, 0, false, false), ClipboardReaction::Ignore));
    assert!(matches!(r(&hot, None, 1, true, false), ClipboardReaction::KeepSaved));
    assert!(matches!(r(&hot, None, 0, false, true), ClipboardReaction::KeepSaved));
    assert!(matches!(r(&hot, None, 0, false, false), ClipboardReaction::Ignore));
    assert!(matches!(r(&hot, Some(10), 0, false, true), ClipboardReaction::Ignore));
}

fn notify_record(next: u32, name: &str) -> Vec<u8> {
    let units: Vec<u16> = name.encode_utf16().collect();
    let mut b = Vec::new();
    b.extend_from_slice(&next.to_le_bytes());
    b.extend_from_slice(&3u32.to_le_bytes());
    b.extend_from_slice(&((units.len() * 2) as u32).to_le_bytes());
    for u in units {
        b.extend_from_slice(&u.to_le_bytes());
    }
    while b.len() % 4 != 0 {
        b.push(0);
    }
    b
}

#[test]
fn notify_records_list_their_names() {

    let len0 = notify_record(0, "配置.tmp").len();
    let mut buf = notify_record(len0 as u32, "配置.tmp");
    buf.extend_from_slice(&notify_record(0, "config.json"));
    assert_eq!(notify_file_names(&buf), vec!["配置.tmp".to_string(), "config.json".to_string()]);
    // a truncated last record is dropped
    let cut = &buf[..buf.len() - 4];
    assert_eq!(notify_file_names(cut), vec!["配置.tmp".to_string()]);
    assert!(notify_file_names(&[]).is_empty());
}
