//! The capture watcher: duplicate detection, directory-availability
//! notices, history file naming, batch copying, and the choice of files to
//! clean up, migrate or preview. All disk and clipboard access is left to the
//! caller, which reports what it saw.

use vstd::prelude::*;
use crate::text::string_views;
use crate::config::{AppConfig, join_path, spec_join_path, spec_resolved_save_dir};
use crate::digest::{content_md5, hex_lower, md5_digest};
use crate::capture::{encode_capture, png_encoding};
use crate::text::{
    contains_str, decimal_digits, push_decimal, push_str, rfind_char, spec_contains,
    spec_starts_with, starts_with, str_eq, str_suffix_from, to_owned_string,
};

verus! {

broadcast use vstd::string::group_string_axioms;

/// What the watcher remembers between clipboard events.
pub struct WatcherState {
    /// Fingerprint of the last image saved, if any.
    pub last_digest: Option<Seq<char>>,
    /// Whether the capture directory was reachable at the last probe.
    pub dir_available: bool,
    /// The user chose "do not remind again" during the current outage.
    pub suppressed: bool,
    /// The current outage has already been announced.
    pub notified: bool,
}

/// Saves captures into a directory and decides what to do on each event.
pub struct ClipboardWatcher {
    pub config: AppConfig,
    pub save_dir: String,
    last_md5: Option<String>,
    dir_available: bool,
    suppress_unavailable_notify: bool,
    dir_unavailable_notified: bool,
}

impl ClipboardWatcher {
    /// The configuration the watcher works with.
    pub closed spec fn config_of(&self) -> AppConfig {
        self.config
    }

    /// The capture directory.
    pub closed spec fn save_dir_of(&self) -> Seq<char> {
        self.save_dir@
    }
}

impl View for ClipboardWatcher {
    type V = WatcherState;

    closed spec fn view(&self) -> WatcherState {
        WatcherState {
            last_digest: match self.last_md5 {
                Some(s) => Some(s@),
                None => None,
            },
            dir_available: self.dir_available,
            suppressed: self.suppress_unavailable_notify,
            notified: self.dir_unavailable_notified,
        }
    }
}

/// A fresh watcher: nothing saved yet, directory assumed reachable.
pub open spec fn initial_state() -> WatcherState {
    WatcherState { last_digest: None, dir_available: true, suppressed: false, notified: false }
}

/// The effect of probing the directory: the new state, and whether the
/// directory has just come back (which is announced).
pub open spec fn probe_step(s: WatcherState, available: bool) -> (WatcherState, bool) {
    if available && !s.dir_available {
        (
            WatcherState {
                last_digest: s.last_digest,
                dir_available: true,
                suppressed: false,
                notified: false,
            },
            true,
        )
    } else if !available && s.dir_available {
        (
            WatcherState {
                last_digest: s.last_digest,
                dir_available: false,
                suppressed: s.suppressed,
                notified: s.notified,
            },
            false,
        )
    } else {
        (s, false)
    }
}

/// The text of the "directory unavailable" notice for an operation.
pub open spec fn unavailable_message(operation_type: Seq<char>) -> Seq<char> {
    "存储目录暂不可用，请在WSL2启动后再尝试重新"@ + operation_type
}

/// Asking to announce an outage: the new state and the notice to show, if
/// any. An outage is announced once, and never after the user suppressed it.
pub open spec fn notice_step(s: WatcherState, operation_type: Seq<char>) -> (WatcherState, Option<Seq<char>>) {
    if s.suppressed || s.notified {
        (s, None)
    } else {
        (
            WatcherState {
                last_digest: s.last_digest,
                dir_available: s.dir_available,
                suppressed: s.suppressed,
                notified: true,
            },
            Some(unavailable_message(operation_type)),
        )
    }
}

/// The user's answer to the notice: button 2 ("do not remind again")
/// suppresses further notices.
pub open spec fn choice_step(s: WatcherState, dialog_result: isize) -> WatcherState {
    if dialog_result == 2 {
        WatcherState {
            last_digest: s.last_digest,
            dir_available: s.dir_available,
            suppressed: true,
            notified: s.notified,
        }
    } else {
        s
    }
}

/// Remembering the fingerprint of a saved image.
pub open spec fn saved_step(s: WatcherState, digest: Seq<char>) -> WatcherState {
    WatcherState {
        last_digest: Some(digest),
        dir_available: s.dir_available,
        suppressed: s.suppressed,
        notified: s.notified,
    }
}

/// An image is new unless it has the fingerprint of the last saved one.
pub open spec fn is_new_content(s: WatcherState, digest: Seq<char>) -> bool {
    s.last_digest != Some(digest)
}

/// History file name `clip_<ts>[_<seq>][.<ext>]`; sequence 0 has no suffix.
pub open spec fn spec_history_name(timestamp: Seq<char>, extension: Seq<char>, seq: nat) -> Seq<char> {
    let stem = if seq == 0 {
        "clip_"@ + timestamp
    } else {
        "clip_"@ + timestamp + "_"@ + decimal_digits(seq)
    };
    if extension.len() == 0 {
        stem
    } else {
        stem + "."@ + extension
    }
}

/// The `i`-th path tried for a new history file in `dir`.
pub open spec fn candidate_path(dir: Seq<char>, timestamp: Seq<char>, extension: Seq<char>, i: int) -> Seq<char> {
    spec_join_path(dir, spec_history_name(timestamp, extension, i as nat))
}

/// `probe` was asked about a path with this text and answered `answer`.
pub open spec fn answered<F: Fn(&String) -> bool>(probe: F, path: Seq<char>, answer: bool) -> bool {
    exists|p: String| p@ == path && call_ensures(probe, (&p,), answer)
}

/// The contents of the `Some` entries, in order.
pub open spec fn somes<T>(outs: Seq<Option<T>>) -> Seq<T>
    decreases outs.len(),
{
    if outs.len() == 0 {
        seq![]
    } else {
        match outs.last() {
            Some(x) => somes(outs.drop_last()).push(x),
            None => somes(outs.drop_last()),
        }
    }
}

proof fn lemma_somes_len<T>(outs: Seq<Option<T>>)
    ensures
        somes(outs).len() <= outs.len(),
    decreases outs.len(),
{
    if outs.len() > 0 {
        lemma_somes_len(outs.drop_last());
    }
}

/// The history file name for a timestamp, extension and conflict number.
pub fn history_file_name(timestamp: &str, extension: &str, seq: u32) -> (r: String)
    ensures
        r@ == spec_history_name(timestamp@, extension@, seq as nat),
{
    let mut s = to_owned_string("clip_");
    push_str(&mut s, timestamp);
    if seq != 0 {
        push_str(&mut s, "_");
        push_decimal(&mut s, seq as u64);
    }
    if extension.unicode_len() != 0 {
        push_str(&mut s, ".");
        push_str(&mut s, extension);
    }
    s
}

/// `r` is the path chosen for a new history file in `dir` when `probe`
/// tells which paths exist: the first candidate reported absent, or the
/// first candidate when all hundred are taken.
pub open spec fn history_choice<F: Fn(&String) -> bool>(
    dir: Seq<char>,
    timestamp: Seq<char>,
    extension: Seq<char>,
    probe: F,
    r: Seq<char>,
) -> bool {
    (exists|i: int|
        #![trigger candidate_path(dir, timestamp, extension, i)]
        0 <= i < 100 && r == candidate_path(dir, timestamp, extension, i)
            && answered(probe, r, false) && forall|j: int|
            0 <= j < i ==> answered(
                probe,
                #[trigger] candidate_path(dir, timestamp, extension, j),
                true,
            )) || (r == candidate_path(dir, timestamp, extension, 0)
        && forall|j: int|
        0 <= j < 100 ==> answered(
            probe,
            #[trigger] candidate_path(dir, timestamp, extension, j),
            true,
        ))
}

/// A free path in directory `dir` for a new history file: the
/// first of `clip_<ts>.<ext>`, `clip_<ts>_1.<ext>`, ..., `clip_<ts>_99.<ext>`
/// that `path_exists` reports absent, or the first one when all are taken.
pub fn history_path_in<F: Fn(&String) -> bool>(
    dir: &str,
    timestamp: &str,
    extension: &str,
    path_exists: F,
) -> (r: String)
    requires
        forall|p: &String| #[trigger] call_requires(path_exists, (p,)),
    ensures
        history_choice(dir@, timestamp@, extension@, path_exists, r@),
{
    let base_name = history_file_name(timestamp, extension, 0);
    let base = join_path(dir, base_name.as_str());
    if !path_exists(&base) {
        assert(answered(path_exists, base@, false));
        assert(candidate_path(dir@, timestamp@, extension@, 0) == base@);
        return base;
    }
    let mut i: u32 = 1;
    while i < 100
        invariant
            1 <= i <= 100,
            forall|p: &String| #[trigger] call_requires(path_exists, (p,)),
            base@ == candidate_path(dir@, timestamp@, extension@, 0),
            forall|j: int|
                0 <= j < i ==> answered(
                    path_exists,
                    #[trigger] candidate_path(dir@, timestamp@, extension@, j),
                    true,
                ),
        decreases 100 - i,
    {
        let name = history_file_name(timestamp, extension, i);
        let path = join_path(dir, name.as_str());
        if !path_exists(&path) {
            assert(answered(path_exists, path@, false));
            assert(candidate_path(dir@, timestamp@, extension@, i as int) == path@);
            return path;
        }
        assert(answered(path_exists, path@, true));
        assert(candidate_path(dir@, timestamp@, extension@, i as int) == path@);
        i = i + 1;
    }
    base
}


impl ClipboardWatcher {
    /// A watcher for `config`, saving below the program directory `exe_dir`
    /// when `save_dir` is relative.
    pub fn new(config: AppConfig, exe_dir: &str) -> (r: Self)
        ensures
            r.config_of() == config,
            r.save_dir_of() == spec_resolved_save_dir(config.save_dir@, exe_dir@),
            r@ == initial_state(),
    {
        let save_dir = config.resolved_save_dir(exe_dir);
        ClipboardWatcher {
            config,
            save_dir,
            last_md5: None,
            dir_available: true,
            suppress_unavailable_notify: false,
            dir_unavailable_notified: false,
        }
    }

    /// Takes up a reloaded configuration: the watcher then works with
    /// `config` and saves into its directory, resolved against the program
    /// directory `exe_dir`; what it remembers is unchanged.
    pub fn apply_config(&mut self, config: AppConfig, exe_dir: &str)
        ensures
            final(self).config_of() == config,
            final(self).save_dir_of() == spec_resolved_save_dir(config.save_dir@, exe_dir@),
            final(self)@ == old(self)@,
    {
        let save_dir = config.resolved_save_dir(exe_dir);
        self.config = config;
        self.save_dir = save_dir;
    }

    /// Whether the directory was reachable at the last probe.
    pub fn is_dir_available(&self) -> (r: bool)
        ensures
            r == self@.dir_available,
    {
        self.dir_available
    }

    /// Records the result of probing the capture directory. Returns whether
    /// the directory has just become reachable again, which the caller
    /// announces; a recovery also clears the outage's notice flags.
    pub fn observe_dir_available(&mut self, available: bool) -> (recovered: bool)
        ensures
            (final(self)@, recovered) == probe_step(old(self)@, available),
            final(self).config_of() == old(self).config_of(),
            final(self).save_dir_of() == old(self).save_dir_of(),
    {
        let was_available = self.dir_available;
        if available && !was_available {
            self.dir_available = true;
            self.suppress_unavailable_notify = false;
            self.dir_unavailable_notified = false;
            true
        } else {
            if !available && was_available {
                self.dir_available = false;
            }
            false
        }
    }

    /// Decides whether to announce that the directory is unavailable for the
    /// given operation ("截图" or "复制文件"): returns the message to show, or
    /// `None` when the outage was already announced or the user suppressed it.
    pub fn notify_dir_unavailable(&mut self, operation_type: &str) -> (r: Option<String>)
        ensures
            (final(self)@, match r {
                Some(m) => Some(m@),
                None => None,
            }) == notice_step(old(self)@, operation_type@),
            final(self).config_of() == old(self).config_of(),
            final(self).save_dir_of() == old(self).save_dir_of(),
    {
        if self.suppress_unavailable_notify {
            return None;
        }
        if self.dir_unavailable_notified {
            return None;
        }
        self.dir_unavailable_notified = true;
        let mut msg = to_owned_string("存储目录暂不可用，请在WSL2启动后再尝试重新");
        push_str(&mut msg, operation_type);
        Some(msg)
    }

    /// Records the button chosen in the notice (2 = "do not remind again").
    pub fn record_unavailable_choice(&mut self, dialog_result: isize)
        ensures
            final(self)@ == choice_step(old(self)@, dialog_result),
            final(self).config_of() == old(self).config_of(),
            final(self).save_dir_of() == old(self).save_dir_of(),
    {
        if dialog_result == 2 {
            self.suppress_unavailable_notify = true;
        }
    }

    /// The fingerprint used to recognise an image seen before.
    pub fn image_digest(rgba: &[u8]) -> (r: String)
        ensures
            r@ == hex_lower(md5_digest(rgba@)),
    {
        content_md5(rgba)
    }

    /// Whether an image with this fingerprint differs from the last one saved.
    pub fn is_new_image(&self, digest: &str) -> (r: bool)
        ensures
            r == is_new_content(self@, digest@),
    {
        match &self.last_md5 {
            Some(last) => !str_eq(last.as_str(), digest),
            None => true,
        }
    }

    /// Remembers the fingerprint of the image just saved.
    pub fn remember_image(&mut self, digest: String)
        ensures
            final(self)@ == saved_step(old(self)@, digest@),
            final(self).config_of() == old(self).config_of(),
            final(self).save_dir_of() == old(self).save_dir_of(),
    {
        self.last_md5 = Some(digest);
    }

    /// Saves a clipboard image unless it is the one saved last: the image
    /// is encoded as PNG and handed to `store`, which writes it into history
    /// and reports the file name, or `None` when writing failed; that answer
    /// is the result. Pixels that do not fill the size, or a zero side, give
    /// `None` without calling `store`. Only a stored image becomes the one
    /// to compare the next against. `store` is called at most once, and
    /// only with the PNG of an image that differs from the last one saved:
    /// its precondition need hold for nothing else, so a `store` that may
    /// not be called at all is accepted for a repeated image.
    pub fn save_new_image<S: Fn(&Vec<u8>) -> Option<String>>(
        &mut self,
        width: usize,
        height: usize,
        rgba: &[u8],
        store: S,
    ) -> (r: Option<String>)
        requires
            is_new_content(old(self)@, hex_lower(md5_digest(rgba@))) ==> forall|b: &Vec<u8>|
                b@ == png_encoding(
                    width as u32,
                    height as u32,
                    rgba@.take(4 * (width as u32) * (height as u32)),
                ) ==> #[trigger] call_requires(store, (b,)),
        ensures
            final(self).config_of() == old(self).config_of(),
            final(self).save_dir_of() == old(self).save_dir_of(),
            !is_new_content(old(self)@, hex_lower(md5_digest(rgba@))) ==> r is None,
            !(rgba@.len() >= 4 * (width as u32) * (height as u32) && (width as u32) > 0 && (height
                as u32) > 0) ==> r is None,
            is_new_content(old(self)@, hex_lower(md5_digest(rgba@))) && rgba@.len() >= 4 * (
            width as u32) * (height as u32) && (width as u32) > 0 && (height as u32) > 0 ==> exists|
                png: Vec<u8>|
                png@ == png_encoding(
                    width as u32,
                    height as u32,
                    rgba@.take(4 * (width as u32) * (height as u32)),
                ) && call_ensures(store, (&png,), r),
            r is None ==> final(self)@ == old(self)@,
            r matches Some(name) ==> {
                &&& final(self)@ == saved_step(old(self)@, hex_lower(md5_digest(rgba@)))
                &&& exists|png: Vec<u8>|
                    png@ == png_encoding(
                        width as u32,
                        height as u32,
                        rgba@.take(4 * (width as u32) * (height as u32)),
                    ) && call_ensures(store, (&png,), Some(name))
            },
    {
        let digest = Self::image_digest(rgba);
        if !self.is_new_image(digest.as_str()) {
            return None;
        }
        let png = match encode_capture(width, height, rgba) {
            Some(b) => b,
            None => return None,
        };
        match store(&png) {
            Some(name) => {
                self.remember_image(digest);
                Some(name)
            },
            None => None,
        }
    }

    /// [`ClipboardWatcher::save_new_image`] for a `store` that may be called
    /// with any bytes: the same outcome.
    pub fn save_image<S: Fn(&Vec<u8>) -> Option<String>>(
        &mut self,
        width: usize,
        height: usize,
        rgba: &[u8],
        store: S,
    ) -> (r: Option<String>)
        requires
            forall|b: &Vec<u8>| #[trigger] call_requires(store, (b,)),
        ensures
            final(self).config_of() == old(self).config_of(),
            final(self).save_dir_of() == old(self).save_dir_of(),
            !is_new_content(old(self)@, hex_lower(md5_digest(rgba@))) ==> r is None,
            !(rgba@.len() >= 4 * (width as u32) * (height as u32) && (width as u32) > 0 && (height
                as u32) > 0) ==> r is None,
            is_new_content(old(self)@, hex_lower(md5_digest(rgba@))) && rgba@.len() >= 4 * (
            width as u32) * (height as u32) && (width as u32) > 0 && (height as u32) > 0 ==> exists|
                png: Vec<u8>|
                png@ == png_encoding(
                    width as u32,
                    height as u32,
                    rgba@.take(4 * (width as u32) * (height as u32)),
                ) && call_ensures(store, (&png,), r),
            r is None ==> final(self)@ == old(self)@,
            r matches Some(name) ==> {
                &&& final(self)@ == saved_step(old(self)@, hex_lower(md5_digest(rgba@)))
                &&& exists|png: Vec<u8>|
                    png@ == png_encoding(
                        width as u32,
                        height as u32,
                        rgba@.take(4 * (width as u32) * (height as u32)),
                    ) && call_ensures(store, (&png,), Some(name))
            },
    {
        self.save_new_image(width, height, rgba, store)
    }

    /// A free path in the capture directory for a new history file: the
    /// first of `clip_<ts>.<ext>`, `clip_<ts>_1.<ext>`, ..., `clip_<ts>_99.<ext>`
    /// that `path_exists` reports absent, or the first one when all are taken.
    pub fn unique_history_path<F: Fn(&String) -> bool>(
        &self,
        timestamp: &str,
        extension: &str,
        path_exists: F,
    ) -> (r: String)
        requires
            forall|p: &String| #[trigger] call_requires(path_exists, (p,)),
        ensures
            history_choice(self.save_dir_of(), timestamp@, extension@, path_exists, r@),
    {
        history_path_in(self.save_dir.as_str(), timestamp, extension, path_exists)
    }

    /// Copies the files of one clipboard file list: `copy_one` is tried on
    /// the first `max_copy_files` sources, in order, and the names it
    /// reports saved are returned in that order. It is never called on a
    /// later source: its precondition need hold for the first
    /// `max_copy_files` sources only.
    pub fn copy_files<T, F: Fn(&T) -> Option<String>>(&self, src_paths: &[T], copy_one: F) -> (r: Vec<String>)
        requires
            forall|i: int|
                0 <= i < src_paths@.len() && i < self.config_of().max_copy_files ==> call_requires(
                    copy_one,
                    (&src_paths@[i],),
                ),
        ensures
            exists|outs: Seq<Option<String>>|
                {
                    &&& outs.len() == (if src_paths@.len() < self.config_of().max_copy_files {
                        src_paths@.len() as int
                    } else {
                        self.config_of().max_copy_files as int
                    })
                    &&& forall|i: int|
                        0 <= i < outs.len() ==> call_ensures(copy_one, (&src_paths@[i],), #[trigger] outs[i])
                    &&& r@ == somes(outs)
                },
            r@.len() <= self.config_of().max_copy_files,
    {
        let max: usize = self.config.max_copy_files as usize;
        let n: usize = if src_paths.len() < max {
            src_paths.len()
        } else {
            max
        };
        let mut results: Vec<String> = Vec::new();
        let ghost mut outs: Seq<Option<String>> = seq![];
        let mut i: usize = 0;
        while i < n
            invariant
                i <= n,
                n <= src_paths@.len(),
                n == (if src_paths@.len() < self.config.max_copy_files {
                    src_paths@.len() as int
                } else {
                    self.config.max_copy_files as int
                }),
                forall|k: int| 0 <= k < n ==> call_requires(copy_one, (&src_paths@[k],)),
                outs.len() == i,
                forall|k: int| 0 <= k < i ==> call_ensures(copy_one, (&src_paths@[k],), #[trigger] outs[k]),
                results@ == somes(outs),
            decreases n - i,
        {
            let out = copy_one(&src_paths[i]);
            let ghost prev = outs;
            proof {
                outs = outs.push(out);
                assert(outs.drop_last() =~= prev);
            }
            match out {
                Some(name) => {
                    results.push(name);
                },
                None => {},
            }
            i = i + 1;
        }
        proof {
            lemma_somes_len(outs);
        }
        results
    }
}

/// A directory entry as seen on disk: its name and modification time in
/// nanoseconds relative to the Unix epoch.
pub struct ClipEntry {
    pub name: String,
    pub modified: i128,
}

/// History files are the ones named `clip_*`.
pub open spec fn is_clip_name(name: Seq<char>) -> bool {
    spec_starts_with(name, "clip_"@)
}

/// Whether a file name belongs to the capture history.
pub fn is_clip_file_name(name: &str) -> (r: bool)
    ensures
        r == is_clip_name(name@),
{
    starts_with(name, "clip_")
}

/// Nanoseconds in one hour.
pub const NANOS_PER_HOUR: i128 = 3_600_000_000_000;

/// The modification time before which history files are deleted, or `None`
/// when `max_history_hours` is 0 (keep everything).
pub fn cleanup_cutoff(now: i128, max_history_hours: u32) -> (r: Option<i128>)
    requires
        -0x1_0000_0000_0000_0000_0000_0000 <= now <= 0x1_0000_0000_0000_0000_0000_0000,
    ensures
        max_history_hours == 0 ==> r is None,
        max_history_hours > 0 ==> r == Some((now - max_history_hours * NANOS_PER_HOUR) as i128),
{
    if max_history_hours == 0 {
        return None;
    }
    Some(now - (max_history_hours as i128) * NANOS_PER_HOUR)
}

/// Names of the history files last modified before `cutoff`, in order.
pub open spec fn expired_names(entries: Seq<ClipEntry>, cutoff: i128) -> Seq<Seq<char>>
    decreases entries.len(),
{
    if entries.len() == 0 {
        seq![]
    } else {
        let rest = expired_names(entries.drop_last(), cutoff);
        let e = entries.last();
        if is_clip_name(e.name@) && e.modified < cutoff {
            rest.push(e.name@)
        } else {
            rest
        }
    }
}

/// The history files that cleanup deletes: `clip_*` files modified before
/// `cutoff`. Other files in the directory are never chosen.
pub fn expired_clip_names(entries: &Vec<ClipEntry>, cutoff: i128) -> (r: Vec<String>)
    ensures
        string_views(r@) == expired_names(entries@, cutoff),
{
    let mut out: Vec<String> = Vec::new();
    let mut i: usize = 0;
    while i < entries.len()
        invariant
            i <= entries@.len(),
            string_views(out@) == expired_names(entries@.take(i as int), cutoff),
        decreases entries.len() - i,
    {
        let e = &entries[i];
        assert(entries@.take(i + 1).drop_last() =~= entries@.take(i as int));
        if is_clip_file_name(e.name.as_str()) && e.modified < cutoff {
            out.push(to_owned_string(e.name.as_str()));
        }
        assert(string_views(out@) =~= expired_names(entries@.take(i + 1), cutoff));
        i = i + 1;
    }
    assert(entries@.take(entries@.len() as int) =~= entries@);
    out
}

/// Entry `i` is the newest history file: a `clip_*` file modified no earlier
/// than any other, and strictly later than every one listed before it.
pub open spec fn is_latest_clip(entries: Seq<ClipEntry>, i: int) -> bool {
    &&& 0 <= i < entries.len()
    &&& is_clip_name(entries[i].name@)
    &&& forall|j: int|
        0 <= j < entries.len() && is_clip_name(#[trigger] entries[j].name@) ==> entries[j].modified
            <= entries[i].modified
    &&& forall|j: int|
        0 <= j < i && is_clip_name(#[trigger] entries[j].name@) ==> entries[j].modified
            < entries[i].modified
}

/// Index of the newest history file, or `None` when there is none.
pub fn select_latest_clip(entries: &Vec<ClipEntry>) -> (r: Option<usize>)
    ensures
        r is None <==> forall|j: int| 0 <= j < entries@.len() ==> !is_clip_name(#[trigger] entries@[j].name@),
        r matches Some(i) ==> is_latest_clip(entries@, i as int),
{
    let mut best: Option<usize> = None;
    let mut i: usize = 0;
    while i < entries.len()
        invariant
            i <= entries@.len(),
            best is None ==> forall|j: int| 0 <= j < i ==> !is_clip_name(#[trigger] entries@[j].name@),
            best matches Some(b) ==> {
                &&& b < i
                &&& is_clip_name(entries@[b as int].name@)
                &&& forall|j: int|
                    0 <= j < i && is_clip_name(#[trigger] entries@[j].name@) ==> entries@[j].modified
                        <= entries@[b as int].modified
                &&& forall|j: int|
                    0 <= j < b && is_clip_name(#[trigger] entries@[j].name@) ==> entries@[j].modified
                        < entries@[b as int].modified
            },
        decreases entries.len() - i,
    {
        let e = &entries[i];
        if is_clip_file_name(e.name.as_str()) {
            match best {
                None => {
                    best = Some(i);
                },
                Some(b) => {
                    if e.modified > entries[b].modified {
                        best = Some(i);
                    }
                },
            }
        }
        i = i + 1;
    }
    best
}

/// Position of the last `c` in `s`, or -1.
pub open spec fn last_index_of(s: Seq<char>, c: char) -> int
    decreases s.len(),
{
    if s.len() == 0 {
        -1
    } else if s.last() == c {
        s.len() - 1
    } else {
        last_index_of(s.drop_last(), c)
    }
}

proof fn lemma_last_index_of(s: Seq<char>, c: char, k: int)
    requires
        -1 <= k < s.len(),
        k >= 0 ==> s[k] == c,
        forall|j: int| k < j < s.len() ==> s[j] != c,
    ensures
        last_index_of(s, c) == k,
    decreases s.len(),
{
    if s.len() > 0 && s.len() - 1 != k {
        lemma_last_index_of(s.drop_last(), c, k);
    }
}

/// Files left by versions that kept a single `latest` file.
pub open spec fn is_legacy_name(name: Seq<char>) -> bool {
    name == "latest.png"@ || name == "latest_file"@ || spec_starts_with(name, "latest_file."@)
}

/// The extension a legacy file keeps when renamed into the history: "png"
/// when its name mentions ".png", otherwise the text after its last dot, or
/// none.
pub open spec fn legacy_extension(name: Seq<char>) -> Seq<char> {
    if name == "latest.png"@ || spec_contains(name, ".png"@) {
        "png"@
    } else if last_index_of(name, '.') >= 0 {
        name.skip(last_index_of(name, '.') + 1)
    } else {
        ""@
    }
}

/// For a legacy file name, the extension of the history file it becomes;
/// `None` for any other name.
pub fn legacy_migration_extension(name: &str) -> (r: Option<String>)
    ensures
        !is_legacy_name(name@) ==> r is None,
        is_legacy_name(name@) ==> (r matches Some(e) && e@ == legacy_extension(name@)),
{
    let should_migrate = str_eq(name, "latest.png") || str_eq(name, "latest_file") || starts_with(
        name,
        "latest_file.",
    );
    if !should_migrate {
        return None;
    }
    if str_eq(name, "latest.png") || contains_str(name, ".png") {
        return Some(to_owned_string("png"));
    }
    let n = name.unicode_len();
    match rfind_char(name, '.') {
        Some(dot) => {
            proof {
                lemma_last_index_of(name@, '.', dot as int);
            }
            Some(to_owned_string(str_suffix_from(name, dot + 1)))
        },
        None => {
            proof {
                lemma_last_index_of(name@, '.', -1);
            }
            Some(to_owned_string(""))
        },
    }
}

/// Bytes in one megabyte.
pub const BYTES_PER_MB: u64 = 1048576;

/// Whether a file of `size_bytes` is over the copy limit of
/// `max_copy_size_mb` megabytes (a file of exactly the limit is allowed).
pub fn exceeds_copy_limit(size_bytes: u64, max_copy_size_mb: u32) -> (r: bool)
    ensures
        r == (size_bytes > max_copy_size_mb * BYTES_PER_MB),
{
    size_bytes > (max_copy_size_mb as u64) * BYTES_PER_MB
}

} // verus!

verus! {

/// An image is saved at most once in a row: once its fingerprint is
/// remembered, the same image is not new, while any other image is.
pub proof fn law_duplicate_image_not_saved_again(s: WatcherState, digest: Seq<char>, other: Seq<char>)
    ensures
        !is_new_content(saved_step(s, digest), digest),
        other != digest ==> is_new_content(saved_step(s, other), digest),
{
}

/// An outage is announced once: after a notice has been produced, asking
/// again yields none and changes nothing, whatever the operation.
pub proof fn law_outage_announced_once(s: WatcherState, op1: Seq<char>, op2: Seq<char>)
    ensures
        notice_step(s, op1).1 is Some ==> notice_step(notice_step(s, op1).0, op2) == (
            notice_step(s, op1).0,
            None::<Seq<char>>,
        ),
{
}

/// Choosing "do not remind again" silences notices; further failed probes
/// keep it silent; only the directory coming back clears it, and then the
/// next outage is announced again.
pub proof fn law_suppression_lasts_until_recovery(s: WatcherState, op: Seq<char>)
    ensures
        notice_step(choice_step(s, 2), op).1 is None,
        notice_step(probe_step(choice_step(s, 2), false).0, op).1 is None,
        !s.dir_available ==> notice_step(probe_step(choice_step(s, 2), true).0, op).1 == Some(
            unavailable_message(op),
        ),
{
}

/// Recovery is reported once: only a reachable probe after an unreachable
/// one reports it.
pub proof fn law_recovery_reported_once(s: WatcherState)
    ensures
        probe_step(s, true).1 == !s.dir_available,
        !probe_step(probe_step(s, true).0, true).1,
        probe_step(s, true).0.dir_available,
        !probe_step(s, false).0.dir_available,
{
}

/// Probing the directory and announcing outages never touch the remembered
/// fingerprint, so duplicate detection is independent of outages.
pub proof fn law_outages_keep_fingerprint(s: WatcherState, available: bool, op: Seq<char>, result: isize)
    ensures
        probe_step(s, available).0.last_digest == s.last_digest,
        notice_step(s, op).0.last_digest == s.last_digest,
        choice_step(s, result).last_digest == s.last_digest,
{
}

/// The history files chosen for cleanup are all `clip_*` files; any other
/// file in the directory is kept.
pub proof fn law_cleanup_only_history_files(entries: Seq<ClipEntry>, cutoff: i128)
    ensures
        forall|i: int|
            0 <= i < expired_names(entries, cutoff).len() ==> is_clip_name(
                #[trigger] expired_names(entries, cutoff)[i],
            ),
    decreases entries.len(),
{
    if entries.len() > 0 {
        law_cleanup_only_history_files(entries.drop_last(), cutoff);
        let rest = expired_names(entries.drop_last(), cutoff);
        assert forall|i: int| 0 <= i < expired_names(entries, cutoff).len() implies is_clip_name(
            #[trigger] expired_names(entries, cutoff)[i],
        ) by {
            if i < rest.len() {
                assert(expired_names(entries, cutoff)[i] == rest[i]);
            }
        }
    }
}

/// Different conflict numbers give different history names, whatever the
/// timestamp and extension: `clip_<ts>`, `clip_<ts>_1`, `clip_<ts>_2`, ...
/// (each with the same extension, if any) are pairwise distinct.
pub proof fn law_history_names_distinct(timestamp: Seq<char>, extension: Seq<char>, s1: nat, s2: nat)
    requires
        s1 != s2,
    ensures
        spec_history_name(timestamp, extension, s1) != spec_history_name(timestamp, extension, s2),
{
    reveal_strlit("_");
    reveal_strlit("clip_");
    reveal_strlit(".");
    let a = "clip_"@ + timestamp;
    let e = if extension.len() == 0 {
        Seq::<char>::empty()
    } else {
        "."@ + extension
    };
    let x1 = if s1 == 0 {
        Seq::<char>::empty()
    } else {
        "_"@ + decimal_digits(s1)
    };
    let x2 = if s2 == 0 {
        Seq::<char>::empty()
    } else {
        "_"@ + decimal_digits(s2)
    };
    let n1 = spec_history_name(timestamp, extension, s1);
    let n2 = spec_history_name(timestamp, extension, s2);
    assert(n1 =~= a + x1 + e);
    assert(n2 =~= a + x2 + e);
    crate::text::lemma_decimal_digits_len(s1);
    crate::text::lemma_decimal_digits_len(s2);
    if n1 == n2 {
        assert(x1.len() == x2.len());
        assert(n1.subrange(a.len() as int, (a.len() + x1.len()) as int) =~= x1);
        assert(n2.subrange(a.len() as int, (a.len() + x2.len()) as int) =~= x2);
        assert(x1 == x2);
        if s1 != 0 && s2 != 0 {
            assert(x1.skip(1) =~= decimal_digits(s1));
            assert(x2.skip(1) =~= decimal_digits(s2));
            crate::text::lemma_decimal_digits_injective(s1, s2);
        }
    }
}

/// The paths tried for a new history file are pairwise distinct, so the
/// path chosen after the first was reported taken is never that first
/// one, nor any other candidate reported taken.
pub proof fn law_candidate_paths_distinct(
    dir: Seq<char>,
    timestamp: Seq<char>,
    extension: Seq<char>,
    i: int,
    j: int,
)
    requires
        0 <= i,
        0 <= j,
        i != j,
    ensures
        candidate_path(dir, timestamp, extension, i) != candidate_path(dir, timestamp, extension, j),
{
    let r1 = spec_history_name(timestamp, extension, i as nat);
    let r2 = spec_history_name(timestamp, extension, j as nat);
    law_history_names_distinct(timestamp, extension, i as nat, j as nat);
    let p = if dir.len() == 0 {
        Seq::<char>::empty()
    } else if dir.last() == '/' || dir.last() == '\\' {
        dir
    } else {
        dir + seq![crate::config::path_separator(dir)]
    };
    assert(candidate_path(dir, timestamp, extension, i) =~= p + r1);
    assert(candidate_path(dir, timestamp, extension, j) =~= p + r2);
    if p + r1 == p + r2 {
        assert((p + r1).skip(p.len() as int) =~= r1);
        assert((p + r2).skip(p.len() as int) =~= r2);
    }
}

/// Cleanup chooses exactly the history files older than the cutoff: every
/// `clip_*` entry modified before it is chosen, and every chosen name is
/// such an entry's.
pub proof fn law_cleanup_chooses_all_expired(entries: Seq<ClipEntry>, cutoff: i128)
    ensures
        forall|i: int|
            0 <= i < entries.len() && is_clip_name(entries[i].name@) && entries[i].modified < cutoff
                ==> #[trigger] expired_names(entries, cutoff).contains(entries[i].name@),
        forall|j: int|
            0 <= j < expired_names(entries, cutoff).len() ==> exists|i: int|
                0 <= i < entries.len() && is_clip_name(entries[i].name@) && entries[i].modified
                    < cutoff && #[trigger] expired_names(entries, cutoff)[j] == entries[i].name@,
    decreases entries.len(),
{
    if entries.len() > 0 {
        let init = entries.drop_last();
        law_cleanup_chooses_all_expired(init, cutoff);
        let rest = expired_names(init, cutoff);
        let all = expired_names(entries, cutoff);
        let last = entries.len() - 1;
        assert forall|i: int|
            0 <= i < entries.len() && is_clip_name(entries[i].name@) && entries[i].modified < cutoff
                implies #[trigger] all.contains(entries[i].name@) by {
            if i < last {
                assert(init[i] == entries[i]);
                assert(rest.contains(init[i].name@));
                let k = choose|k: int| 0 <= k < rest.len() && rest[k] == init[i].name@;
                assert(all[k] == rest[k]);
            } else {
                assert(all[all.len() - 1] == entries[i].name@);
            }
        }
        assert forall|j: int| 0 <= j < all.len() implies exists|i: int|
            0 <= i < entries.len() && is_clip_name(entries[i].name@) && entries[i].modified < cutoff
                && #[trigger] all[j] == entries[i].name@ by {
            if j < rest.len() {
                assert(all[j] == rest[j]);
                let i = choose|i: int|
                    0 <= i < init.len() && is_clip_name(init[i].name@) && init[i].modified < cutoff
                        && rest[j] == init[i].name@;
                assert(init[i] == entries[i]);
            } else {
                assert(all[j] == entries[last].name@);
            }
        }
    }
}

/// A probe that finds the directory still unreachable changes nothing, so
/// an outage already announced stays announced however many captures fail
/// during it: after a notice, failed probes and further requests give no
/// second notice.
pub proof fn law_outage_not_reannounced(s: WatcherState, op1: Seq<char>, op2: Seq<char>)
    ensures
        !s.dir_available ==> probe_step(s, false) == (s, false),
        notice_step(s, op1).1 is Some ==> notice_step(
            probe_step(notice_step(s, op1).0, false).0,
            op2,
        ).1 is None,
        notice_step(s, op1).1 is Some ==> notice_step(
            probe_step(probe_step(notice_step(s, op1).0, false).0, false).0,
            op2,
        ).1 is None,
{
}

} // verus!
