//! Application configuration: defaults, validation and path resolution.

use vstd::prelude::*;
use vstd::utf8::encode_utf8;
use crate::text::{
    is_blank, push_char, push_str, spec_is_blank, str_chars, strip_trailing, to_owned_string,
    trim_end_char,
};

verus! {

broadcast use vstd::string::group_string_axioms;

/// Default of `max_history_hours`.
pub fn default_max_history_hours() -> (r: u32)
    ensures
        r == 1,
{
    1
}

/// Default of `max_log_size_mb`.
pub fn default_max_log_size_mb() -> (r: u32)
    ensures
        r == 1,
{
    1
}

/// Default of `max_copy_size_mb`.
pub fn default_max_copy_size_mb() -> (r: u32)
    ensures
        r == 10,
{
    10
}

/// Default of `max_copy_files`.
pub fn default_max_copy_files() -> (r: u32)
    ensures
        r == 10,
{
    10
}

/// Default of `preview_hotkey`.
pub fn default_preview_hotkey() -> (r: String)
    ensures
        r@ == "Ctrl+Alt+P"@,
{
    to_owned_string("Ctrl+Alt+P")
}

/// Default of `blocked_preview_ext`: no extra blocked extensions.
pub fn default_blocked_preview_ext() -> (r: Vec<String>)
    ensures
        r@.len() == 0,
{
    Vec::new()
}

/// Default of `show_startup_notification`.
pub fn default_show_startup_notification() -> (r: bool)
    ensures
        r,
{
    true
}

/// Application configuration (the contents of `config.json`).
#[derive(Debug, Clone)]
pub struct AppConfig {
    /// Global hotkey such as "Alt+Insert"; blank selects clipboard mode.
    pub hotkey: String,
    /// Container-side directory that pasted paths point into.
    pub output_path: String,
    /// Windows-side directory where captures are saved (relative or absolute).
    pub save_dir: String,
    /// Hours a capture is kept; 0 keeps captures forever.
    pub max_history_hours: u32,
    /// Size in MB at which the log file is rotated.
    pub max_log_size_mb: u32,
    /// Largest file, in MB, that is copied from the clipboard's file list.
    pub max_copy_size_mb: u32,
    /// Most files taken from one clipboard file list.
    pub max_copy_files: u32,
    /// Hotkey that opens the newest capture; blank disables preview.
    pub preview_hotkey: String,
    /// Extra extensions that preview refuses to open.
    pub blocked_preview_ext: Vec<String>,
    /// Whether a notice is shown at startup.
    pub show_startup_notification: bool,
}

/// The configuration written on first run.
pub open spec fn is_default_config(c: AppConfig) -> bool {
    &&& c.hotkey@ == ""@
    &&& c.output_path@ == "/workspace/.clip"@
    &&& c.save_dir@ == ".clip"@
    &&& c.max_history_hours == 1
    &&& c.max_log_size_mb == 1
    &&& c.max_copy_size_mb == 10
    &&& c.max_copy_files == 10
    &&& c.preview_hotkey@ == "Ctrl+Alt+P"@
    &&& c.blocked_preview_ext@.len() == 0
    &&& c.show_startup_notification
}

impl Default for AppConfig {
    fn default() -> (r: Self)
        ensures
            is_default_config(r),
    {
        AppConfig {
            hotkey: to_owned_string(""),
            output_path: to_owned_string("/workspace/.clip"),
            save_dir: to_owned_string(".clip"),
            max_history_hours: default_max_history_hours(),
            max_log_size_mb: default_max_log_size_mb(),
            max_copy_size_mb: default_max_copy_size_mb(),
            max_copy_files: default_max_copy_files(),
            preview_hotkey: default_preview_hotkey(),
            blocked_preview_ext: default_blocked_preview_ext(),
            show_startup_notification: default_show_startup_notification(),
        }
    }
}

/// A Unix-style absolute path: it starts at the root `/`.
pub open spec fn spec_is_unix_absolute(s: Seq<char>) -> bool {
    s.len() > 0 && s[0] == '/'
}

/// A Windows absolute path judged on its UTF-8 bytes: a drive prefix such as
/// `C:\` or `C:/`, or a UNC path starting with `\\`.
pub open spec fn spec_is_windows_absolute(s: Seq<char>) -> bool {
    let b = encode_utf8(s);
    ||| b.len() >= 3 && b[1] == 58 && (b[2] == 92 || b[2] == 47)
    ||| b.len() >= 2 && b[0] == 92 && b[1] == 92
}

/// The separator a path written like `base` uses: `\` for a Windows-style
/// path, one holding a backslash, and `/` otherwise.
pub open spec fn path_separator(base: Seq<char>) -> char {
    if base.contains('\\') {
        '\\'
    } else {
        '/'
    }
}

/// `base` joined with the relative path `rel`, separated by the separator
/// of `base` unless `base` is empty or already ends with a separator.
pub open spec fn spec_join_path(base: Seq<char>, rel: Seq<char>) -> Seq<char> {
    if base.len() == 0 {
        rel
    } else if base.last() == '/' || base.last() == '\\' {
        base + rel
    } else {
        base + seq![path_separator(base)] + rel
    }
}

/// Where captures are saved: `save_dir` itself when absolute, otherwise
/// `save_dir` below the program directory `exe_dir`.
pub open spec fn spec_resolved_save_dir(save_dir: Seq<char>, exe_dir: Seq<char>) -> Seq<char> {
    if spec_is_unix_absolute(save_dir) || spec_is_windows_absolute(save_dir) {
        save_dir
    } else {
        spec_join_path(exe_dir, save_dir)
    }
}

/// `output_path` without its trailing `/` characters.
pub open spec fn spec_output_dir(output_path: Seq<char>) -> Seq<char> {
    strip_trailing(output_path, '/')
}

/// Container-side path of the legacy `latest_file` with the given extension.
pub open spec fn spec_latest_output_path(output_path: Seq<char>, ext: Seq<char>) -> Seq<char> {
    if ext.len() == 0 {
        spec_output_dir(output_path) + "/latest_file"@
    } else {
        spec_output_dir(output_path) + "/latest_file."@ + ext
    }
}

/// Detects a Windows-style absolute path (`C:\`, `E:/`, or UNC `\\host\...`).
pub fn is_windows_absolute(path: &str) -> (r: bool)
    ensures
        r == spec_is_windows_absolute(path@),
{
    let bytes = path.as_bytes();
    (bytes.len() >= 3 && bytes[1] == 58u8 && (bytes[2] == 92u8 || bytes[2] == 47u8)) || (
    bytes.len() >= 2 && bytes[0] == 92u8 && bytes[1] == 92u8)
}

/// Whether `path` starts at the Unix root.
pub fn is_unix_absolute(path: &str) -> (r: bool)
    ensures
        r == spec_is_unix_absolute(path@),
{
    path.unicode_len() > 0 && path.get_char(0) == '/'
}

/// Whether `s` holds a backslash.
fn has_backslash(s: &str) -> (r: bool)
    ensures
        r == s@.contains('\\'),
{
    let v = str_chars(s);
    let mut i: usize = 0;
    while i < v.len()
        invariant
            v@ == s@,
            i <= v@.len(),
            forall|j: int| 0 <= j < i ==> s@[j] != '\\',
        decreases v.len() - i,
    {
        if v[i] == '\\' {
            assert(s@[i as int] == '\\');
            return true;
        }
        i = i + 1;
    }
    false
}

/// Joins a relative path onto a base directory, with the base's separator
/// (`\` for a Windows-style base, as `PathBuf::join` writes on Windows).
pub fn join_path(base: &str, rel: &str) -> (r: String)
    ensures
        r@ == spec_join_path(base@, rel@),
{
    let mut s = to_owned_string(base);
    let n = base.unicode_len();
    if n > 0 {
        let last = base.get_char(n - 1);
        if last != '/' && last != '\\' {
            if has_backslash(base) {
                push_char(&mut s, '\\');
            } else {
                push_char(&mut s, '/');
            }
        }
    }
    push_str(&mut s, rel);
    assert(s@ =~= spec_join_path(base@, rel@));
    s
}

impl AppConfig {
    /// Checks that the two paths are set: `Err` with the message naming the
    /// first blank one.
    pub fn validate(&self) -> (r: Result<(), String>)
        ensures
            r is Ok <==> !spec_is_blank(self.output_path@) && !spec_is_blank(self.save_dir@),
            spec_is_blank(self.output_path@) ==> (r matches Err(e) && e@ == "output_path 不能为空"@),
            !spec_is_blank(self.output_path@) && spec_is_blank(self.save_dir@) ==> (r matches Err(e)
                && e@ == "save_dir 不能为空"@),
    {
        if is_blank(self.output_path.as_str()) {
            return Err(to_owned_string("output_path 不能为空"));
        }
        if is_blank(self.save_dir.as_str()) {
            return Err(to_owned_string("save_dir 不能为空"));
        }
        Ok(())
    }

    /// Hotkey mode is on when the hotkey is not blank.
    pub fn is_hotkey_mode(&self) -> (r: bool)
        ensures
            r == !spec_is_blank(self.hotkey@),
    {
        !is_blank(self.hotkey.as_str())
    }

    /// The container-side directory: `output_path` without trailing `/`.
    pub fn output_dir(&self) -> (r: &str)
        ensures
            r@ == spec_output_dir(self.output_path@),
    {
        trim_end_char(self.output_path.as_str(), '/')
    }

    /// Container-side path of `latest_file` with the given extension
    /// (no extension when `extension` is empty).
    pub fn resolved_output_path_for(&self, extension: &str) -> (r: String)
        ensures
            r@ == spec_latest_output_path(self.output_path@, extension@),
    {
        let mut s = to_owned_string(self.output_dir());
        if extension.unicode_len() == 0 {
            push_str(&mut s, "/latest_file");
        } else {
            push_str(&mut s, "/latest_file.");
            push_str(&mut s, extension);
        }
        s
    }

    /// Container-side path of `latest_file.png`.
    pub fn resolved_output_path(&self) -> (r: String)
        ensures
            r@ == spec_latest_output_path(self.output_path@, "png"@),
    {
        self.resolved_output_path_for("png")
    }

    /// Container-side path of a file saved in the capture directory:
    /// `output_path/file_name`.
    pub fn container_path_for(&self, file_name: &str) -> (r: String)
        ensures
            r@ == self.output_path@ + "/"@ + file_name@,
    {
        let mut s = to_owned_string(self.output_path.as_str());
        push_str(&mut s, "/");
        push_str(&mut s, file_name);
        s
    }

    /// The capture directory: `save_dir` when absolute, otherwise relative to
    /// the program directory `exe_dir`.
    pub fn resolved_save_dir(&self, exe_dir: &str) -> (r: String)
        ensures
            r@ == spec_resolved_save_dir(self.save_dir@, exe_dir@),
    {
        let save = self.save_dir.as_str();
        if is_unix_absolute(save) || is_windows_absolute(save) {
            to_owned_string(save)
        } else {
            join_path(exe_dir, save)
        }
    }

    /// Windows-side path of `latest_file.png` in the capture directory.
    pub fn latest_file_path(&self, exe_dir: &str) -> (r: String)
        ensures
            r@ == spec_join_path(spec_resolved_save_dir(self.save_dir@, exe_dir@), "latest_file.png"@),
    {
        let dir = self.resolved_save_dir(exe_dir);
        join_path(dir.as_str(), "latest_file.png")
    }

    /// Same as [`AppConfig::latest_file_path`].
    pub fn latest_png_path(&self, exe_dir: &str) -> (r: String)
        ensures
            r@ == spec_join_path(spec_resolved_save_dir(self.save_dir@, exe_dir@), "latest_file.png"@),
    {
        self.latest_file_path(exe_dir)
    }
}

/// Trailing slashes on `output_path` change no container-side path: the
/// output directory, and so every `latest_file` path, is the same with or
/// without them.
pub proof fn law_output_dir_ignores_trailing_slashes(p: Seq<char>, n: nat)
    ensures
        spec_output_dir(p + Seq::new(n, |_i: int| '/')) == spec_output_dir(p),
        forall|ext: Seq<char>|
            spec_latest_output_path(p + Seq::new(n, |_i: int| '/'), ext) == #[trigger] spec_latest_output_path(p, ext),
    decreases n,
{
    if n > 0 {
        let q = p + Seq::new(n, |_i: int| '/');
        let q1 = p + Seq::new((n - 1) as nat, |_i: int| '/');
        assert(q.drop_last() =~= q1);
        law_output_dir_ignores_trailing_slashes(p, (n - 1) as nat);
    } else {
        assert(p + Seq::new(0, |_i: int| '/') =~= p);
    }
}

} // verus!
