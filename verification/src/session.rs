//! The decisions the tray application takes around its message loop: what
//! the tray shows, what a configuration reload has to redo, how a change of
//! the clipboard is answered, and how the autostart entry is recognised.

use vstd::prelude::*;
use crate::config::AppConfig;
use crate::text::{
    spec_is_blank, spec_trim, spec_contains, trim, is_blank, str_eq, contains_str, to_owned_string,
    push_str,
};

verus! {

broadcast use vstd::string::group_string_axioms;

/// The input hotkey is configured: paths are typed into the focused window
/// rather than published on the clipboard.
pub open spec fn spec_hotkey_mode(c: AppConfig) -> bool {
    !spec_is_blank(c.hotkey@)
}

/// The tray's status line: version, build tag and the input mode.
pub open spec fn spec_status_label(version: Seq<char>, debug_tag: Seq<char>, c: AppConfig) -> Seq<char> {
    "clipImg v"@ + version + debug_tag + if spec_hotkey_mode(c) {
        " ["@ + c.hotkey@ + "]"@
    } else {
        " [剪贴板模式]"@
    }
}

/// The tray's status line, e.g. `clipImg v1.0.12 [Alt+Insert]`.
pub fn status_label(version: &str, debug_tag: &str, config: &AppConfig) -> (r: String)
    ensures
        r@ == spec_status_label(version@, debug_tag@, *config),
{
    let mut s = to_owned_string("clipImg v");
    push_str(&mut s, version);
    push_str(&mut s, debug_tag);
    if config.is_hotkey_mode() {
        push_str(&mut s, " [");
        push_str(&mut s, config.hotkey.as_str());
        push_str(&mut s, "]");
    } else {
        push_str(&mut s, " [剪贴板模式]");
    }
    proof {
        reveal_strlit("clipImg v");
        reveal_strlit(" [");
        reveal_strlit("]");
        reveal_strlit(" [剪贴板模式]");
    }
    assert(s@ =~= spec_status_label(version@, debug_tag@, *config));
    s
}

/// The preview menu entry: the trimmed preview hotkey, or a note that
/// preview is off when none is set.
pub open spec fn spec_preview_label(c: AppConfig) -> Seq<char> {
    if spec_trim(c.preview_hotkey@).len() == 0 {
        "预览功能已关闭"@
    } else {
        "预览快捷键: "@ + spec_trim(c.preview_hotkey@)
    }
}

/// The preview menu entry.
pub fn preview_label(config: &AppConfig) -> (r: String)
    ensures
        r@ == spec_preview_label(*config),
{
    let key = trim(config.preview_hotkey.as_str());
    if key.unicode_len() == 0 {
        to_owned_string("预览功能已关闭")
    } else {
        let mut s = to_owned_string("预览快捷键: ");
        push_str(&mut s, key);
        s
    }
}

/// The name of the input mode written to the log at start-up.
pub fn mode_name(config: &AppConfig) -> (r: &'static str)
    ensures
        spec_hotkey_mode(*config) ==> r@ == "热键模式 (方案 A)"@,
        !spec_hotkey_mode(*config) ==> r@ == "多格式剪贴板模式 (方案 C)"@,
{
    if config.is_hotkey_mode() {
        "热键模式 (方案 A)"
    } else {
        "多格式剪贴板模式 (方案 C)"
    }
}

/// The tray tooltip once the application runs.
pub open spec fn spec_startup_tip(version: Seq<char>, c: AppConfig) -> Seq<char> {
    "clipImg v"@ + version + " 已启动 ["@ + if spec_hotkey_mode(c) {
        "热键模式 "@ + c.hotkey@
    } else {
        "剪贴板模式"@
    } + "]"@
}

/// The tray tooltip once the application runs.
pub fn startup_tip(version: &str, config: &AppConfig) -> (r: String)
    ensures
        r@ == spec_startup_tip(version@, *config),
{
    let mut s = to_owned_string("clipImg v");
    push_str(&mut s, version);
    push_str(&mut s, " 已启动 [");
    if config.is_hotkey_mode() {
        push_str(&mut s, "热键模式 ");
        push_str(&mut s, config.hotkey.as_str());
    } else {
        push_str(&mut s, "剪贴板模式");
    }
    push_str(&mut s, "]");
    assert(s@ =~= spec_startup_tip(version@, *config));
    s
}

/// The start-up notice, shown only when `show_startup_notification` is set:
/// the tooltip and a hint on how to turn the notice off.
pub fn startup_notice(version: &str, config: &AppConfig) -> (r: Option<String>)
    ensures
        !config.show_startup_notification ==> r is None,
        config.show_startup_notification ==> (r matches Some(m) && m@ == spec_startup_tip(version@, *config)
            + "\n\n如不需要此提示，请在配置文件中将 show_startup_notification 设为 false。"@),
{
    if !config.show_startup_notification {
        return None;
    }
    let mut s = startup_tip(version, config);
    push_str(&mut s, "\n\n如不需要此提示，请在配置文件中将 show_startup_notification 设为 false。");
    Some(s)
}

/// What a reload of the configuration has to redo.
pub struct ReloadPlan {
    /// The input hotkey must be unregistered and registered anew.
    pub hotkey_changed: bool,
    /// The preview hotkey must be unregistered and registered anew.
    pub preview_changed: bool,
    /// Some hotkey is wanted, so a hotkey manager must exist.
    pub need_manager: bool,
}

/// Compares the running configuration with the one just loaded.
pub fn plan_reload(old: &AppConfig, new: &AppConfig) -> (r: ReloadPlan)
    ensures
        r.hotkey_changed == (spec_hotkey_mode(*old) != spec_hotkey_mode(*new) || old.hotkey@
            != new.hotkey@),
        r.preview_changed == (old.preview_hotkey@ != new.preview_hotkey@),
        r.need_manager == (spec_hotkey_mode(*new) || !spec_is_blank(new.preview_hotkey@)),
{
    let hotkey_changed = old.is_hotkey_mode() != new.is_hotkey_mode() || !str_eq(
        old.hotkey.as_str(),
        new.hotkey.as_str(),
    );
    let preview_changed = !str_eq(old.preview_hotkey.as_str(), new.preview_hotkey.as_str());
    let need_manager = new.is_hotkey_mode() || !is_blank(new.preview_hotkey.as_str());
    ReloadPlan { hotkey_changed, preview_changed, need_manager }
}

/// After a reload the hotkey manager is kept only while some hotkey is in
/// use: the input hotkey, or a preview hotkey that was registered.
pub fn keep_hotkey_manager(new: &AppConfig, preview_registered: bool) -> (r: bool)
    ensures
        r == (spec_hotkey_mode(*new) || preview_registered),
{
    new.is_hotkey_mode() || preview_registered
}

/// How long after publishing on the clipboard a change notice is taken to
/// be the echo of that publication, in milliseconds.
pub const SELF_SET_COOLDOWN_MS: u64 = 500;

/// Whether a clipboard change is the echo of this application's own
/// publication, given the milliseconds since that publication, if any.
pub fn is_self_triggered(since_own_set_ms: Option<u64>) -> (r: bool)
    ensures
        r == (since_own_set_ms matches Some(ms) && ms < SELF_SET_COOLDOWN_MS),
{
    match since_own_set_ms {
        Some(ms) => ms < SELF_SET_COOLDOWN_MS,
        None => false,
    }
}

/// How the application answers a change of the clipboard.
pub enum ClipboardReaction {
    /// Nothing to do: the change is the echo of this application's own
    /// publication, or nothing was saved.
    Ignore,
    /// Keep what was saved and leave the clipboard alone (hotkey mode).
    KeepSaved,
    /// Publish text, bitmap and file list for one image.
    PublishImage,
    /// Publish text and file list for copied files.
    PublishFiles,
}

/// The answer to a clipboard change, given the milliseconds since this
/// application last published, the number of copied files saved (with
/// whether the first one is a PNG), and whether a clipboard image was
/// saved. Echoes of the application's own publication are ignored; in
/// hotkey mode the clipboard is never written; otherwise a single saved
/// PNG, or a saved clipboard image, is published as an image and other
/// saved files as a file list.
pub fn clipboard_reaction(
    config: &AppConfig,
    since_own_set_ms: Option<u64>,
    saved_files: usize,
    first_is_png: bool,
    image_saved: bool,
) -> (r: ClipboardReaction)
    ensures
        since_own_set_ms matches Some(ms) && ms < SELF_SET_COOLDOWN_MS ==> r is Ignore,
        spec_hotkey_mode(*config) ==> !(r is PublishImage || r is PublishFiles),
        !(since_own_set_ms matches Some(ms) && ms < SELF_SET_COOLDOWN_MS) ==> {
            &&& spec_hotkey_mode(*config) ==> (r is KeepSaved <==> saved_files > 0 || image_saved)
            &&& !spec_hotkey_mode(*config) && saved_files > 0 ==> (r is PublishImage <==> saved_files
                == 1 && first_is_png) && (r is PublishFiles <==> !(saved_files == 1 && first_is_png))
            &&& !spec_hotkey_mode(*config) && saved_files == 0 ==> (r is PublishImage <==> image_saved)
                && !(r is PublishFiles)
            &&& (r is Ignore <==> saved_files == 0 && !image_saved)
        },
{
    if is_self_triggered(since_own_set_ms) {
        ClipboardReaction::Ignore
    } else if saved_files == 0 && !image_saved {
        ClipboardReaction::Ignore
    } else if config.is_hotkey_mode() {
        ClipboardReaction::KeepSaved
    } else if saved_files > 0 {
        if saved_files == 1 && first_is_png {
            ClipboardReaction::PublishImage
        } else {
            ClipboardReaction::PublishFiles
        }
    } else {
        ClipboardReaction::PublishImage
    }
}

/// What a hotkey event asks for.
pub enum HotkeyAction {
    /// Open the newest capture with its default program.
    Preview,
    /// Type the container path of the newest capture.
    TypeLatestPath,
    /// Nothing.
    Ignore,
}

/// A pressed preview hotkey previews; any other press types the newest
/// path when the input hotkey is configured; releases do nothing.
pub fn hotkey_action(pressed: bool, is_preview_key: bool, hotkey_mode: bool) -> (r: HotkeyAction)
    ensures
        r is Preview <==> pressed && is_preview_key,
        r is TypeLatestPath <==> pressed && !is_preview_key && hotkey_mode,
        r is Ignore <==> !pressed || (!is_preview_key && !hotkey_mode),
{
    if !pressed {
        HotkeyAction::Ignore
    } else if is_preview_key {
        HotkeyAction::Preview
    } else if hotkey_mode {
        HotkeyAction::TypeLatestPath
    } else {
        HotkeyAction::Ignore
    }
}

/// The autostart registry value: the executable's path in double quotes.
pub fn autostart_command(exe_path: &str) -> (r: String)
    ensures
        r@ == seq!['"'] + exe_path@ + seq!['"'],
{
    let mut s = to_owned_string("\"");
    push_str(&mut s, exe_path);
    push_str(&mut s, "\"");
    proof {
        reveal_strlit("\"");
    }
    assert(s@ =~= seq!['"'] + exe_path@ + seq!['"']);
    s
}

/// Whether a stored autostart value starts this executable: it names the
/// executable's path. A debug build only asks that a value exists, since
/// the entry it manages belongs to the release build.
pub fn autostart_points_here(stored: &str, exe_path: &str, debug_build: bool) -> (r: bool)
    ensures
        r == (debug_build || spec_contains(stored@, exe_path@)),
{
    debug_build || contains_str(stored, exe_path)
}

} // verus!
