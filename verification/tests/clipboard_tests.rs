use std::cell::RefCell;
use std::collections::HashSet;

use clipimg::clipboard::{
    cleanup_cutoff, exceeds_copy_limit, expired_clip_names, history_file_name, is_clip_file_name,
    legacy_migration_extension, select_latest_clip, ClipEntry, ClipboardWatcher, NANOS_PER_HOUR,
};
use clipimg::config::AppConfig;

fn watcher() -> ClipboardWatcher {
    let config = AppConfig {
        save_dir: "/tmp/test/.clip".to_string(),
        max_history_hours: 1,
        ..Default::default()
    };
    ClipboardWatcher::new(config, "/tmp/test")
}

fn entry(name: &str, modified: i128) -> ClipEntry {
    ClipEntry { name: name.to_string(), modified }
}

#[test]
fn new_watcher_resolves_save_dir() {
    let w = ClipboardWatcher::new(AppConfig::default(), "/opt/clipImg");
    assert_eq!(w.save_dir, "/opt/clipImg/.clip");
    assert!(w.is_dir_available());
}

#[test]
fn same_image_is_not_saved_twice() {
    let mut w = watcher();
    let red: Vec<u8> = [255u8, 0, 0, 255].repeat(4);
    let blue: Vec<u8> = [0u8, 0, 255, 255].repeat(4);
    let d_red = ClipboardWatcher::image_digest(&red);
    assert!(w.is_new_image(&d_red));
    w.remember_image(d_red.clone());
    assert!(!w.is_new_image(&ClipboardWatcher::image_digest(&red)));
    let d_blue = ClipboardWatcher::image_digest(&blue);
    assert!(w.is_new_image(&d_blue));
    w.remember_image(d_blue);
    assert!(w.is_new_image(&d_red));
}

#[test]
fn image_digest_is_md5_hex() {
    assert_eq!(ClipboardWatcher::image_digest(b""), "d41d8cd98f00b204e9800998ecf8427e");
    assert_eq!(ClipboardWatcher::image_digest(b"abc"), "900150983cd24fb0d6963f7d28e17f72");
}

#[test]
fn outage_is_announced_once_and_recovery_rearms() {
    let mut w = watcher();
    assert!(!w.observe_dir_available(false));
    assert!(!w.is_dir_available());
    assert_eq!(
        w.notify_dir_unavailable("截图"),
        Some("存储目录暂不可用，请在WSL2启动后再尝试重新截图".to_string())
    );
    assert_eq!(w.notify_dir_unavailable("复制文件"), None);
    assert!(w.observe_dir_available(true));
    assert!(!w.observe_dir_available(true));
    assert!(!w.observe_dir_available(false));
    assert_eq!(
        w.notify_dir_unavailable("复制文件"),
        Some("存储目录暂不可用，请在WSL2启动后再尝试重新复制文件".to_string())
    );
}

#[test]
fn suppressed_notice_stays_silent_until_recovery() {
    let mut w = watcher();
    w.observe_dir_available(false);
    assert!(w.notify_dir_unavailable("截图").is_some());
    w.record_unavailable_choice(2);
    assert!(w.notify_dir_unavailable("截图").is_none());
    w.observe_dir_available(false);
    assert!(w.notify_dir_unavailable("截图").is_none());
    w.observe_dir_available(true);
    w.observe_dir_available(false);
    assert!(w.notify_dir_unavailable("截图").is_some());
    w.record_unavailable_choice(1);
    assert!(w.notify_dir_unavailable("截图").is_none());
}

#[test]
fn test_unique_history_path_conflict_format() {
    let w = watcher();
    let existing: HashSet<String> = ["/tmp/test/.clip/clip_20260415_120000123.pdf".to_string()].into();
    let path = w.unique_history_path("20260415_120000123", "pdf", |p: &String| existing.contains(p));
    assert_eq!(path, "/tmp/test/.clip/clip_20260415_120000123_1.pdf");
}

#[test]
fn unique_history_path_prefers_the_base_name() {
    let w = watcher();
    assert_eq!(
        w.unique_history_path("20260415_120000123", "png", |_p: &String| false),
        "/tmp/test/.clip/clip_20260415_120000123.png"
    );
    let asked = RefCell::new(0);
    let path = w.unique_history_path("t", "", |_p: &String| {
        *asked.borrow_mut() += 1;
        true
    });
    assert_eq!(path, "/tmp/test/.clip/clip_t");
    assert_eq!(*asked.borrow(), 100);
}

#[test]
fn history_file_names() {
    assert_eq!(history_file_name("20260415_120000123", "pdf", 1), "clip_20260415_120000123_1.pdf");
    assert_eq!(history_file_name("20260415_120000123", "", 0), "clip_20260415_120000123");
    assert_eq!(history_file_name("x", "png", 42), "clip_x_42.png");
}

#[test]
fn test_copy_files_respects_max() {
    let config = AppConfig { max_copy_files: 1, ..Default::default() };
    let w = ClipboardWatcher::new(config, "/tmp/test");
    let srcs = vec!["doc1.txt".to_string(), "doc2.pdf".to_string(), "doc3.md".to_string()];
    let results = w.copy_files(&srcs, |p: &String| Some(format!("clip_{}", p)));
    assert_eq!(results.len(), 1, "max_copy_files=1 应只保存 1 个文件");
}

#[test]
fn copy_files_keeps_order_and_skips_failures() {
    let w = watcher();
    let srcs = vec!["doc1.txt", "skip.bin", "doc2.pdf"];
    let tried = RefCell::new(Vec::new());
    let results = w.copy_files(&srcs, |p: &&str| {
        tried.borrow_mut().push(p.to_string());
        if p.starts_with("skip") {
            None
        } else {
            Some(format!("clip_x.{}", p.rsplit('.').next().unwrap()))
        }
    });
    assert_eq!(results, vec!["clip_x.txt".to_string(), "clip_x.pdf".to_string()]);
    assert_eq!(tried.into_inner().len(), 3);
}

#[test]
fn test_clean_does_not_touch_non_clip_files() {
    let now = 1_775_534_400_000_000_000i128;
    let cutoff = cleanup_cutoff(now, 1).unwrap();
    let entries = vec![
        entry("_tmp_clip.png", now - 3 * NANOS_PER_HOUR),
        entry("clip_20260407_120000123.png", now - 3 * NANOS_PER_HOUR),
        entry("clip_20260408_120000456.png", now),
        entry(".clipimg.log", now - 100 * NANOS_PER_HOUR),
    ];
    let expired = expired_clip_names(&entries, cutoff);
    assert_eq!(expired, vec!["clip_20260407_120000123.png".to_string()]);
}

#[test]
fn cleanup_cutoff_zero_hours_keeps_everything() {
    assert_eq!(cleanup_cutoff(1000, 0), None);
    assert_eq!(cleanup_cutoff(10 * NANOS_PER_HOUR, 2), Some(8 * NANOS_PER_HOUR));
}

#[test]
fn latest_clip_is_newest_history_file() {
    assert_eq!(select_latest_clip(&vec![]), None);
    let entries = vec![
        entry("latest.png", 999),
        entry("clip_20260416_100000123.png", 10),
        entry("clip_20260416_110000456.png", 20),
        entry("clip_20260416_120000456.png", 20),
        entry("notes.txt", 50),
    ];
    assert_eq!(select_latest_clip(&entries), Some(2));
    assert_eq!(select_latest_clip(&vec![entry("readme", 1)]), None);
}

#[test]
fn legacy_names_and_their_extensions() {
    assert_eq!(legacy_migration_extension("latest.png"), Some("png".to_string()));
    assert_eq!(legacy_migration_extension("latest_file.png"), Some("png".to_string()));
    assert_eq!(legacy_migration_extension("latest_file"), Some("".to_string()));
    assert_eq!(legacy_migration_extension("latest_file.pdf"), Some("pdf".to_string()));
    assert_eq!(legacy_migration_extension("latest_file.tar.gz"), Some("gz".to_string()));
    assert_eq!(legacy_migration_extension("latest_file.png.bak"), Some("png".to_string()));
    assert_eq!(legacy_migration_extension("clip_1.png"), None);
    assert_eq!(legacy_migration_extension("latest"), None);
}

#[test]
fn copy_size_limit() {
    assert!(exceeds_copy_limit(1024, 0));
    assert!(!exceeds_copy_limit(0, 0));
    assert!(!exceeds_copy_limit(10 * 1048576, 10));
    assert!(exceeds_copy_limit(10 * 1048576 + 1, 10));
}

#[test]
fn clip_names() {
    assert!(is_clip_file_name("clip_"));
    assert!(is_clip_file_name("clip_20260407_120000123.png"));
    assert!(!is_clip_file_name("clip"));
    assert!(!is_clip_file_name("_tmp_clip.png"));
}

fn red_image() -> Vec<u8> {
    [255u8, 0, 0, 255].repeat(100)
}

#[test]
fn new_image_is_stored_and_duplicate_skipped() {
    let mut w = watcher();
    let stored: RefCell<Vec<Vec<u8>>> = RefCell::new(Vec::new());
    let store = |png: &Vec<u8>| {
        stored.borrow_mut().push(png.clone());
        Some(format!("clip_{}.png", stored.borrow().len()))
    };
    assert_eq!(w.save_new_image(10, 10, &red_image(), &store), Some("clip_1.png".to_string()));
    assert_eq!(w.save_new_image(10, 10, &red_image(), &store), None);
    assert_eq!(stored.borrow().len(), 1);
    let png = stored.borrow()[0].clone();
    let back = image::load_from_memory(&png).unwrap().to_rgba8();
    assert_eq!(back.dimensions(), (10, 10));
    assert_eq!(back.into_raw(), red_image());

    let mut blue = red_image();
    blue[0] = 0;
    blue[2] = 255;
    assert_eq!(w.save_new_image(10, 10, &blue, &store), Some("clip_2.png".to_string()));
    assert_eq!(w.save_new_image(10, 10, &red_image(), &store), Some("clip_3.png".to_string()));
}

#[test]
fn failed_store_is_not_remembered() {
    let mut w = watcher();
    assert_eq!(w.save_image(10, 10, &red_image(), |_png: &Vec<u8>| None), None);
    assert!(w.is_new_image(&ClipboardWatcher::image_digest(&red_image())));
    let calls = RefCell::new(0);
    let counting = |_png: &Vec<u8>| {
        *calls.borrow_mut() += 1;
        Some("x".to_string())
    };
    // too few pixels for the size: nothing is encoded or stored
    assert_eq!(w.save_new_image(11, 10, &red_image(), &counting), None);
    assert_eq!(*calls.borrow(), 0);
    assert_eq!(w.save_new_image(10, 10, &red_image(), &counting), Some("x".to_string()));
}

#[test]
fn apply_config_moves_save_dir_and_keeps_state() {
    let mut w = watcher();
    w.observe_dir_available(false);
    w.remember_image(ClipboardWatcher::image_digest(b"x"));
    let mut c = AppConfig::default();
    c.save_dir = "D:\\clips".to_string();
    c.max_copy_files = 3;
    w.apply_config(c, "/opt/clipImg");
    assert_eq!(w.save_dir, "D:\\clips");
    assert_eq!(w.config.max_copy_files, 3);
    assert!(!w.is_dir_available());
    assert!(!w.is_new_image(&ClipboardWatcher::image_digest(b"x")));
    w.apply_config(AppConfig::default(), "/opt/clipImg");
    assert_eq!(w.save_dir, "/opt/clipImg/.clip");
}

#[test]
fn copy_files_never_calls_past_the_limit() {
    let mut config = AppConfig::default();
    config.max_copy_files = 1;
    let w = ClipboardWatcher::new(config, "/tmp");
    let calls: RefCell<Vec<String>> = RefCell::new(Vec::new());
    let srcs = vec!["doc1.txt".to_string(), "doc2.pdf".to_string(), "doc3.md".to_string()];
    let names = w.copy_files(&srcs, |s: &String| {
        calls.borrow_mut().push(s.clone());
        Some(format!("clip_{}", s))
    });
    assert_eq!(names, vec!["clip_doc1.txt".to_string()]);
    assert_eq!(*calls.borrow(), vec!["doc1.txt".to_string()]);
}

#[test]
fn history_path_in_windows_directory_uses_backslash() {
    let mut config = AppConfig::default();
    config.save_dir = "D:\\clips".to_string();
    let w = ClipboardWatcher::new(config, "C:\\Tools");
    assert_eq!(
        w.unique_history_path("20260415_120000123", "png", |_p: &String| false),
        "D:\\clips\\clip_20260415_120000123.png"
    );
}
