//! Upgrading configuration files written by earlier releases: removing
//! retired fields, converting `max_history_days`, adding fields that
//! appeared later, and shortening a file-level `output_path`.

use vstd::prelude::*;
use crate::config::AppConfig;
use crate::text::{str_chars, to_owned_string};

verus! {

broadcast use vstd::string::group_string_axioms;

#[verifier::external_type_specification]
#[verifier::external_body]
pub struct ExJsonValue(serde_json::Value);

#[verifier::external_type_specification]
#[verifier::external_body]
#[verifier::reject_recursive_types(K)]
#[verifier::reject_recursive_types(V)]
pub struct ExJsonMap<K, V>(serde_json::Map<K, V>);

/// A JSON value as plain data, one variant for each form a
/// `serde_json::Value` takes: `null`, a boolean, a non-negative integer
/// (`u64`), a negative integer (`i64`), any other number (by the 64 bits of
/// its binary64 value), a string, an array and an object.
pub enum JsonData {
    Null,
    Bool(bool),
    PosInt(u64),
    NegInt(i64),
    Real(u64),
    Text(Seq<char>),
    Array(Seq<JsonData>),
    Object(Map<Seq<char>, JsonData>),
}

/// The fields of a JSON object: each key with its value.
pub uninterp spec fn json_fields(m: serde_json::Map<String, serde_json::Value>) -> Map<Seq<char>, JsonData>;

/// The fields of `text` read as JSON (`serde_json::from_str::<Value>`), or
/// `None` when `text` is not JSON whose top level is an object.
pub uninterp spec fn json_object_fields(text: Seq<char>) -> Option<Map<Seq<char>, JsonData>>;

/// `d` holds no more than `n` arrays or objects nested in one another.
pub open spec fn nesting_within(d: JsonData, n: nat) -> bool
    decreases n,
{
    match d {
        JsonData::Array(items) => n > 0 && forall|i: int|
            0 <= i < items.len() ==> #[trigger] nesting_within(items[i], (n - 1) as nat),
        JsonData::Object(f) => n > 0 && forall|k: Seq<char>|
            f.contains_key(k) ==> #[trigger] nesting_within(f[k], (n - 1) as nat),
        _ => true,
    }
}

/// `d` is nested no deeper than `n` and holds no number other than an
/// integer, so printing and reading it back gives it exactly.
pub open spec fn exact_within(d: JsonData, n: nat) -> bool
    decreases n,
{
    match d {
        JsonData::Real(_) => false,
        JsonData::Array(items) => n > 0 && forall|i: int|
            0 <= i < items.len() ==> #[trigger] exact_within(items[i], (n - 1) as nat),
        JsonData::Object(f) => n > 0 && forall|k: Seq<char>|
            f.contains_key(k) ==> #[trigger] exact_within(f[k], (n - 1) as nat),
        _ => true,
    }
}

/// How deep the values of an object's fields may nest: serde_json reads at
/// most 127 arrays and objects inside one another, the object itself
/// counted.
pub open spec fn field_depth() -> nat {
    126
}

/// Every field nests within what serde_json reads.
pub open spec fn fields_readable(f: Map<Seq<char>, JsonData>) -> bool {
    forall|k: Seq<char>| f.contains_key(k) ==> #[trigger] nesting_within(f[k], field_depth())
}

/// Every field can be printed and read back exactly.
pub open spec fn fields_exact(f: Map<Seq<char>, JsonData>) -> bool {
    forall|k: Seq<char>| f.contains_key(k) ==> #[trigger] exact_within(f[k], field_depth())
}

/// Parses `text` as JSON and keeps it only when it is an object
/// (`serde_json::from_str::<Value>`).
///
/// Trusted: the object's fields are `json_object_fields(text)`, `None` comes
/// back exactly when that is `None`, and the fields nest within the
/// parser's recursion limit (128 levels, the object itself counted).
#[verifier::external_body]
fn parse_json_object(text: &str) -> (r: Option<serde_json::Map<String, serde_json::Value>>)
    ensures
        match r {
            Some(m) => json_object_fields(text@) == Some(json_fields(m)) && fields_readable(
                json_fields(m),
            ),
            None => json_object_fields(text@) is None,
        },
{
    match serde_json::from_str::<serde_json::Value>(text) {
        Ok(serde_json::Value::Object(m)) => Some(m),
        _ => None,
    }
}

/// `Map::contains_key`. Trusted: true exactly when the key is present.
#[verifier::external_body]
fn json_contains_key(m: &serde_json::Map<String, serde_json::Value>, key: &str) -> (r: bool)
    ensures
        r == json_fields(*m).contains_key(key@),
{
    m.contains_key(key)
}

/// The value of a field read as an unsigned integer, as `Value::as_u64`
/// reads it: only a non-negative integer is one.
pub open spec fn u64_of(d: JsonData) -> Option<u64> {
    match d {
        JsonData::PosInt(n) => Some(n),
        _ => None,
    }
}

/// The field `key` of `f` read as an unsigned integer.
pub open spec fn u64_field(f: Map<Seq<char>, JsonData>, key: Seq<char>) -> Option<u64> {
    if f.contains_key(key) {
        u64_of(f[key])
    } else {
        None
    }
}

/// `Map::get` followed by `Value::as_u64`: the value under `key` as an
/// unsigned integer. Trusted: `Some(n)` exactly when the key holds the
/// non-negative integer `n`.
#[verifier::external_body]
fn json_get_u64(m: &serde_json::Map<String, serde_json::Value>, key: &str) -> (r: Option<u64>)
    ensures
        r == u64_field(json_fields(*m), key@),
{
    m.get(key).and_then(|v| v.as_u64())
}

/// `Map::remove`, telling whether the key was present. Trusted: the key is
/// gone afterwards and the other fields are unchanged.
#[verifier::external_body]
fn json_remove(m: &mut serde_json::Map<String, serde_json::Value>, key: &str) -> (r: bool)
    ensures
        r == json_fields(*old(m)).contains_key(key@),
        json_fields(*final(m)) == json_fields(*old(m)).remove(key@),
{
    m.remove(key).is_some()
}

/// `Map::insert` of `Value::from(n)`. Trusted: the key then holds the
/// non-negative integer `n`; the other fields are unchanged.
#[verifier::external_body]
fn json_insert_u64(m: &mut serde_json::Map<String, serde_json::Value>, key: &str, n: u64)
    ensures
        json_fields(*final(m)) == json_fields(*old(m)).insert(key@, JsonData::PosInt(n)),
{
    m.insert(key.to_string(), serde_json::Value::from(n));
}

/// `Map::insert` of `Value::from(s)`. Trusted: the key then holds the
/// string `s`; the other fields are unchanged.
#[verifier::external_body]
fn json_insert_str(m: &mut serde_json::Map<String, serde_json::Value>, key: &str, s: &str)
    ensures
        json_fields(*final(m)) == json_fields(*old(m)).insert(key@, JsonData::Text(s@)),
{
    m.insert(key.to_string(), serde_json::Value::from(s));
}

/// `Map::insert` of `Value::from(b)`. Trusted: the key then holds the
/// boolean `b`; the other fields are unchanged.
#[verifier::external_body]
fn json_insert_bool(m: &mut serde_json::Map<String, serde_json::Value>, key: &str, b: bool)
    ensures
        json_fields(*final(m)) == json_fields(*old(m)).insert(key@, JsonData::Bool(b)),
{
    m.insert(key.to_string(), serde_json::Value::from(b));
}

/// `Map::insert` of an empty `Value::Array`. Trusted: the key then holds an
/// empty array; the other fields are unchanged.
#[verifier::external_body]
fn json_insert_empty_array(m: &mut serde_json::Map<String, serde_json::Value>, key: &str)
    ensures
        json_fields(*final(m)) == json_fields(*old(m)).insert(key@, JsonData::Array(seq![])),
{
    m.insert(key.to_string(), serde_json::Value::Array(Vec::new()));
}

/// The value that serde_json reads back from the printed form of the value
/// `d`: `d` itself, except that a non-integer number comes back to the
/// parser's default precision.
pub uninterp spec fn json_reread(d: JsonData) -> JsonData;

/// The fields of `f`, each as serde_json reads it back once printed.
pub open spec fn reread_fields(f: Map<Seq<char>, JsonData>) -> Map<Seq<char>, JsonData> {
    f.map_values(|d: JsonData| json_reread(d))
}

/// Pretty-printed JSON text of an object (`serde_json::to_string_pretty`).
///
/// Trusted: printing a `Map` of `Value`s does not fail. When the fields nest
/// within the parser's limit, the text read back with `from_str` is an
/// object whose fields are the given ones, each read back from its printed
/// form (`json_reread`); a field holding no non-integer number comes back
/// exactly, while other numbers come back only to serde_json's default
/// precision (the `float_roundtrip` feature is off). The layout of the text
/// is serde_json's.
#[verifier::external_body]
fn json_to_pretty(m: &serde_json::Map<String, serde_json::Value>) -> (r: Option<String>)
    ensures
        r is Some,
        fields_readable(json_fields(*m)) ==> json_object_fields(r.unwrap()@) == Some(
            json_fields(*m).map_values(|d: JsonData| json_reread(d)),
        ),
        fields_readable(json_fields(*m)) && fields_exact(json_fields(*m)) ==> json_object_fields(
            r.unwrap()@,
        ) == Some(json_fields(*m)),
{
    serde_json::to_string_pretty(m).ok()
}

/// Fields added in later releases, which migration fills with defaults.
pub open spec fn added_fields() -> Set<Seq<char>> {
    set![
        "max_copy_size_mb"@,
        "preview_hotkey"@,
        "blocked_preview_ext"@,
        "show_startup_notification"@,
    ]
}

/// Whether migration changes an object with these keys regardless of the
/// value of `max_history_days`: a retired field is present or an added one
/// is missing.
pub open spec fn needs_field_migration(keys: Set<Seq<char>>) -> bool {
    keys.contains("poll_interval_ms"@) || !added_fields().subset_of(keys)
}

/// The number of days that migration converts to hours: `max_history_days`
/// when it holds an unsigned integer and `max_history_hours` is absent.
pub open spec fn days_to_convert(f: Map<Seq<char>, JsonData>) -> Option<u64> {
    if f.contains_key("max_history_hours"@) {
        None
    } else {
        u64_field(f, "max_history_days"@)
    }
}

/// Whether migration changes an object with these fields.
pub open spec fn config_needs_migration(f: Map<Seq<char>, JsonData>) -> bool {
    needs_field_migration(f.dom()) || days_to_convert(f) is Some
}

/// `d * 24` as a `u64`, wrapping on overflow.
pub open spec fn days_as_hours(d: u64) -> u64 {
    ((d * 24) % 0x1_0000_0000_0000_0000) as u64
}

/// `f` with `key` set to `v` unless it is already present.
pub open spec fn with_default(f: Map<Seq<char>, JsonData>, key: Seq<char>, v: JsonData) -> Map<
    Seq<char>,
    JsonData,
> {
    if f.contains_key(key) {
        f
    } else {
        f.insert(key, v)
    }
}

/// `f` with `max_history_days` replaced by `max_history_hours` where that
/// is due, and without `poll_interval_ms`.
pub open spec fn migrated_history_fields(f: Map<Seq<char>, JsonData>) -> Map<Seq<char>, JsonData> {
    let f1 = f.remove("poll_interval_ms"@);
    if f.contains_key("max_history_hours"@) {
        f1
    } else {
        match days_to_convert(f) {
            Some(d) => f1.remove("max_history_days"@).insert(
                "max_history_hours"@,
                JsonData::PosInt(days_as_hours(d)),
            ),
            None => f1.remove("max_history_days"@),
        }
    }
}

/// The fields of a configuration after migration: `poll_interval_ms`
/// dropped; without `max_history_hours`, `max_history_days` dropped and,
/// when it held an unsigned integer `d`, `max_history_hours = d * 24`
/// added; the later fields added with their defaults when missing
/// (`max_copy_size_mb = 10`, `preview_hotkey = "Ctrl+Alt+P"`,
/// `blocked_preview_ext = []`, `show_startup_notification = true`). Every
/// other field keeps its value.
pub open spec fn migrated_fields(f: Map<Seq<char>, JsonData>) -> Map<Seq<char>, JsonData> {
    let f2 = migrated_history_fields(f);
    let f3 = with_default(f2, "max_copy_size_mb"@, JsonData::PosInt(10));
    let f4 = with_default(f3, "preview_hotkey"@, JsonData::Text("Ctrl+Alt+P"@));
    let f5 = with_default(f4, "blocked_preview_ext"@, JsonData::Array(seq![]));
    with_default(f5, "show_startup_notification"@, JsonData::Bool(true))
}

/// The configuration keys that migration reads or writes are distinct.
proof fn lemma_config_keys_distinct()
    ensures
        "poll_interval_ms"@ != "max_history_hours"@,
        "poll_interval_ms"@ != "max_history_days"@,
        "max_history_days"@ != "max_history_hours"@,
        !added_fields().contains("poll_interval_ms"@),
        !added_fields().contains("max_history_days"@),
        !added_fields().contains("max_history_hours"@),
        "max_copy_size_mb"@ != "preview_hotkey"@,
        "max_copy_size_mb"@ != "blocked_preview_ext"@,
        "max_copy_size_mb"@ != "show_startup_notification"@,
        "preview_hotkey"@ != "blocked_preview_ext"@,
        "preview_hotkey"@ != "show_startup_notification"@,
        "blocked_preview_ext"@ != "show_startup_notification"@,
{
    reveal_strlit("poll_interval_ms");
    reveal_strlit("max_history_hours");
    reveal_strlit("max_history_days");
    reveal_strlit("max_copy_size_mb");
    reveal_strlit("preview_hotkey");
    reveal_strlit("blocked_preview_ext");
    reveal_strlit("show_startup_notification");
    assert("poll_interval_ms"@[0] != "max_history_hours"@[0]);
    assert("poll_interval_ms"@[0] != "max_history_days"@[0]);
    assert("max_history_days"@[12] != "max_history_hours"@[12]);
    assert("poll_interval_ms"@[0] != "max_copy_size_mb"@[0]);
    assert("poll_interval_ms"@[1] != "preview_hotkey"@[1]);
    assert("poll_interval_ms"@[0] != "blocked_preview_ext"@[0]);
    assert("poll_interval_ms"@[0] != "show_startup_notification"@[0]);
    assert("max_history_days"@[4] != "max_copy_size_mb"@[4]);
    assert("max_history_days"@[0] != "preview_hotkey"@[0]);
    assert("max_history_days"@[0] != "blocked_preview_ext"@[0]);
    assert("max_history_days"@[0] != "show_startup_notification"@[0]);
    assert("max_history_hours"@[4] != "max_copy_size_mb"@[4]);
    assert("max_history_hours"@[0] != "preview_hotkey"@[0]);
    assert("max_history_hours"@[0] != "blocked_preview_ext"@[0]);
    assert("max_history_hours"@[0] != "show_startup_notification"@[0]);
    assert("max_copy_size_mb"@[1] != "preview_hotkey"@[1]);
    assert("max_copy_size_mb"@[0] != "blocked_preview_ext"@[0]);
    assert("max_copy_size_mb"@[0] != "show_startup_notification"@[0]);
    assert("preview_hotkey"@[0] != "blocked_preview_ext"@[0]);
    assert("preview_hotkey"@[0] != "show_startup_notification"@[0]);
    assert("blocked_preview_ext"@[0] != "show_startup_notification"@[0]);
}

/// Migrates a parsed configuration object in place (see
/// [`migrated_fields`]) and tells whether it changed.
pub fn migrate_config_object(obj: &mut serde_json::Map<String, serde_json::Value>) -> (changed: bool)
    ensures
        json_fields(*final(obj)) == migrated_fields(json_fields(*old(obj))),
        changed == config_needs_migration(json_fields(*old(obj))),
{
    let ghost f0 = json_fields(*obj);
    proof {
        lemma_config_keys_distinct();
    }
    let mut changed = false;
    if json_remove(obj, "poll_interval_ms") {
        changed = true;
    }
    if !json_contains_key(obj, "max_history_hours") {
        let days = json_get_u64(obj, "max_history_days");
        json_remove(obj, "max_history_days");
        match days {
            Some(d) => {
                json_insert_u64(obj, "max_history_hours", d.wrapping_mul(24));
                changed = true;
            },
            None => {},
        }
    }
    let ghost f2 = json_fields(*obj);
    assert(f2 =~= migrated_history_fields(f0));
    assert(changed == (f0.contains_key("poll_interval_ms"@) || days_to_convert(f0) is Some));
    if !json_contains_key(obj, "max_copy_size_mb") {
        json_insert_u64(obj, "max_copy_size_mb", 10);
        changed = true;
    }
    if !json_contains_key(obj, "preview_hotkey") {
        json_insert_str(obj, "preview_hotkey", "Ctrl+Alt+P");
        changed = true;
    }
    if !json_contains_key(obj, "blocked_preview_ext") {
        json_insert_empty_array(obj, "blocked_preview_ext");
        changed = true;
    }
    if !json_contains_key(obj, "show_startup_notification") {
        json_insert_bool(obj, "show_startup_notification", true);
        changed = true;
    }
    proof {
        assert(json_fields(*obj) =~= migrated_fields(f0));
        assert(added_fields().subset_of(f0.dom()) <==> (f0.contains_key("max_copy_size_mb"@)
            && f0.contains_key("preview_hotkey"@) && f0.contains_key("blocked_preview_ext"@)
            && f0.contains_key("show_startup_notification"@)));
    }
    changed
}

/// Migration keeps fields readable, and exact, as they were.
proof fn lemma_migrated_fields_keep_form(f: Map<Seq<char>, JsonData>)
    ensures
        fields_readable(f) ==> fields_readable(migrated_fields(f)),
        fields_exact(f) ==> fields_exact(migrated_fields(f)),
{
    reveal_strlit("Ctrl+Alt+P");
    let g = migrated_fields(f);
    assert(nesting_within(JsonData::Array(seq![]), field_depth()));
    assert(exact_within(JsonData::Array(seq![]), field_depth()));
    assert forall|k: Seq<char>| g.contains_key(k) && !f.contains_key(k) implies exact_within(
        #[trigger] g[k],
        field_depth(),
    ) && nesting_within(g[k], field_depth()) by {}
    assert forall|k: Seq<char>| g.contains_key(k) && f.contains_key(k) && g[k] != f[k] implies exact_within(
        #[trigger] g[k],
        field_depth(),
    ) && nesting_within(g[k], field_depth()) by {}
}

/// Migrates the text of a configuration file. Text that is not a JSON
/// object, and objects that need no change, come back unchanged; otherwise
/// the migrated object is pretty-printed, and reading the result back
/// gives the migrated fields, each as serde_json reads it back once
/// printed: exactly the migrated fields when no field holds a non-integer
/// number.
pub fn migrate_config(content: &str) -> (r: String)
    ensures
        json_object_fields(content@) is None ==> r@ == content@,
        json_object_fields(content@) matches Some(f) && !config_needs_migration(f) ==> r@ == content@,
        json_object_fields(content@) matches Some(f) ==> (config_needs_migration(f)
            ==> json_object_fields(r@) == Some(reread_fields(migrated_fields(f)))),
        json_object_fields(content@) matches Some(f) ==> (config_needs_migration(f) && fields_exact(f)
            ==> json_object_fields(r@) == Some(migrated_fields(f))),
{
    match parse_json_object(content) {
        None => to_owned_string(content),
        Some(mut obj) => {
            let ghost f = json_fields(obj);
            let changed = migrate_config_object(&mut obj);
            proof {
                lemma_migrated_fields_keep_form(f);
            }
            if changed {
                match json_to_pretty(&obj) {
                    Some(text) => text,
                    None => to_owned_string(content),
                }
            } else {
                to_owned_string(content)
            }
        },
    }
}

/// A migrated configuration needs no further migration: it holds no
/// retired field, lacks no added one, and leaves no `max_history_days` to
/// convert; and so does its printed form read back. With the contract of
/// [`migrate_config`], migrating the text migrate_config returned gives
/// that text back.
pub proof fn law_migration_settles(f: Map<Seq<char>, JsonData>)
    ensures
        !config_needs_migration(migrated_fields(f)),
        !config_needs_migration(reread_fields(migrated_fields(f))),
        fields_exact(f) ==> fields_exact(migrated_fields(f)),
{
    lemma_config_keys_distinct();
    lemma_migrated_fields_keep_form(f);
    let g = migrated_fields(f);
    assert(!g.contains_key("poll_interval_ms"@));
    assert(added_fields().subset_of(g.dom()));
    assert(!g.contains_key("max_history_hours"@) ==> !g.contains_key("max_history_days"@));
    assert(reread_fields(g).dom() =~= g.dom());
}

/// `s` with every trailing copy of `suffix` removed (`trim_end_matches`).
pub open spec fn strip_suffix_all(s: Seq<char>, suffix: Seq<char>) -> Seq<char>
    decreases s.len(),
{
    if suffix.len() > 0 && suffix.len() <= s.len() && s.skip(s.len() - suffix.len()) == suffix {
        strip_suffix_all(s.take(s.len() - suffix.len()), suffix)
    } else {
        s
    }
}

/// `s` ends with `suffix`.
pub open spec fn spec_ends_with(s: Seq<char>, suffix: Seq<char>) -> bool {
    suffix.len() <= s.len() && s.skip(s.len() - suffix.len()) == suffix
}

fn ends_with_at(v: &Vec<char>, w: &Vec<char>, end: usize) -> (r: bool)
    requires
        end <= v@.len(),
        w@.len() > 0,
    ensures
        r == spec_ends_with(v@.take(end as int), w@),
{
    if w.len() > end {
        return false;
    }
    let start: usize = end - w.len();
    let mut k: usize = 0;
    while k < w.len()
        invariant
            start + w@.len() == end,
            end <= v@.len(),
            k <= w@.len(),
            forall|j: int| 0 <= j < k ==> v@[start + j] == w@[j],
        decreases w.len() - k,
    {
        if v[start + k] != w[k] {
            assert(v@.take(end as int).skip(start as int)[k as int] != w@[k as int]);
            return false;
        }
        k = k + 1;
    }
    assert(v@.take(end as int).skip(start as int) =~= w@);
    true
}

proof fn lemma_strip_step(s: Seq<char>, suffix: Seq<char>, end: int)
    requires
        0 < suffix.len(),
        suffix.len() <= end <= s.len(),
        spec_ends_with(s.take(end), suffix),
    ensures
        strip_suffix_all(s.take(end), suffix) == strip_suffix_all(s.take(end - suffix.len()), suffix),
{
    assert(s.take(end).take(end - suffix.len()) =~= s.take(end - suffix.len()));
}

impl AppConfig {
    /// Releases before directory-level paths stored `output_path` as a file
    /// ending in `/latest.png`: such a path is cut back to its directory.
    /// Returns whether `output_path` changed; nothing else changes.
    pub fn truncate_legacy_output_path(&mut self) -> (changed: bool)
        ensures
            changed == spec_ends_with(old(self).output_path@, "/latest.png"@),
            final(self).output_path@ == strip_suffix_all(old(self).output_path@, "/latest.png"@),
            final(self).hotkey == old(self).hotkey,
            final(self).save_dir == old(self).save_dir,
            final(self).max_history_hours == old(self).max_history_hours,
            final(self).max_log_size_mb == old(self).max_log_size_mb,
            final(self).max_copy_size_mb == old(self).max_copy_size_mb,
            final(self).max_copy_files == old(self).max_copy_files,
            final(self).preview_hotkey == old(self).preview_hotkey,
            final(self).blocked_preview_ext == old(self).blocked_preview_ext,
            final(self).show_startup_notification == old(self).show_startup_notification,
    {
        let v = str_chars(self.output_path.as_str());
        let w = str_chars("/latest.png");
        proof {
            reveal_strlit("/latest.png");
        }
        let mut end: usize = v.len();
        if !ends_with_at(&v, &w, end) {
            assert(v@.take(end as int) =~= v@);
            proof {
                assert(strip_suffix_all(v@, w@) == v@);
            }
            return false;
        }
        assert(v@.take(v@.len() as int) =~= v@);
        while ends_with_at(&v, &w, end)
            invariant
                end <= v@.len(),
                w@.len() > 0,
                w@ == "/latest.png"@,
                v@ == old(self).output_path@,
                strip_suffix_all(v@, w@) == strip_suffix_all(v@.take(end as int), w@),
            decreases end,
        {
            proof {
                lemma_strip_step(v@, w@, end as int);
            }
            end = end - w.len();
        }
        let trimmed = to_owned_string(self.output_path.as_str().substring_char(0, end));
        self.output_path = trimmed;
        true
    }
}

/// Cutting legacy suffixes leaves a path that no longer ends with one, so
/// cutting again changes nothing.
pub proof fn law_legacy_suffix_gone(s: Seq<char>, suffix: Seq<char>)
    requires
        suffix.len() > 0,
    ensures
        !spec_ends_with(strip_suffix_all(s, suffix), suffix),
        strip_suffix_all(strip_suffix_all(s, suffix), suffix) == strip_suffix_all(s, suffix),
    decreases s.len(),
{
    if suffix.len() <= s.len() && s.skip(s.len() - suffix.len()) == suffix {
        law_legacy_suffix_gone(s.take(s.len() - suffix.len()), suffix);
    }
}

} // verus!
