//! What a paste of copied files carries, and which files preview refuses
//! to open.

use vstd::prelude::*;
use crate::text::string_views;
use crate::config::AppConfig;
use crate::text::{push_char, push_str, str_chars, str_eq};

verus! {

broadcast use vstd::string::group_string_axioms;

/// The text placed on the clipboard after copying files: one container-side
/// path `output_path/name` per saved file, each followed by a newline.
pub open spec fn spec_clipboard_text(output_path: Seq<char>, names: Seq<Seq<char>>) -> Seq<char>
    decreases names.len(),
{
    if names.len() == 0 {
        seq![]
    } else {
        spec_clipboard_text(output_path, names.drop_last()) + output_path + "/"@ + names.last()
            + seq!['\n']
    }
}

/// The clipboard contents after copying files: the text names the saved
/// copies by their container-side paths, while the file list (`CF_HDROP`)
/// keeps pointing at the source files the user copied.
pub fn build_file_clipboard_params<T: Clone>(
    source_files: &[T],
    saved_names: &[String],
    config: &AppConfig,
) -> (r: (String, Vec<T>))
    ensures
        r.0@ == spec_clipboard_text(config.output_path@, string_views(saved_names@)),
        r.1@.len() == source_files@.len(),
        forall|i: int| 0 <= i < source_files@.len() ==> cloned(source_files@[i], #[trigger] r.1@[i]),
{
    let ghost names = string_views(saved_names@);
    let mut text = String::new();
    let mut i: usize = 0;
    while i < saved_names.len()
        invariant
            i <= saved_names@.len(),
            names == string_views(saved_names@),
            text@ == spec_clipboard_text(config.output_path@, names.take(i as int)),
        decreases saved_names.len() - i,
    {
        push_str(&mut text, config.output_path.as_str());
        push_str(&mut text, "/");
        push_str(&mut text, saved_names[i].as_str());
        push_char(&mut text, '\n');
        assert(names.take(i + 1).drop_last() =~= names.take(i as int));
        assert(text@ =~= spec_clipboard_text(config.output_path@, names.take(i + 1)));
        i = i + 1;
    }
    assert(names.take(saved_names@.len() as int) =~= names);
    let mut files: Vec<T> = Vec::new();
    let mut k: usize = 0;
    while k < source_files.len()
        invariant
            k <= source_files@.len(),
            files@.len() == k,
            forall|j: int| 0 <= j < k ==> cloned(source_files@[j], #[trigger] files@[j]),
        decreases source_files.len() - k,
    {
        files.push(source_files[k].clone());
        k = k + 1;
    }
    (text, files)
}

/// ASCII lowercase of one character; other characters are unchanged.
pub open spec fn ascii_lower(c: char) -> char {
    if 'A' <= c <= 'Z' {
        ((c as u32) + 32) as char
    } else {
        c
    }
}

/// Every character is ASCII.
pub open spec fn all_ascii(s: Seq<char>) -> bool {
    forall|i: int| 0 <= i < s.len() ==> (#[trigger] s[i] as u32) < 128
}

/// The Unicode lowercase of a string, as `str::to_lowercase` computes it.
pub uninterp spec fn unicode_lowercase(s: Seq<char>) -> Seq<char>;

/// `str::to_lowercase`.
///
/// Trusted: the result is `unicode_lowercase(s)`, and on ASCII text it is
/// the ASCII lowercase, character by character.
#[verifier::external_body]
fn to_lowercase(s: &str) -> (r: String)
    ensures
        r@ == unicode_lowercase(s@),
        all_ascii(s@) ==> r@ == s@.map_values(|c: char| ascii_lower(c)),
{
    s.to_lowercase()
}

/// Case-insensitive equality on ASCII letters (`str::eq_ignore_ascii_case`).
pub open spec fn spec_eq_ignore_ascii_case(a: Seq<char>, b: Seq<char>) -> bool {
    a.len() == b.len() && forall|i: int| 0 <= i < a.len() ==> ascii_lower(#[trigger] a[i]) == ascii_lower(b[i])
}

fn ascii_lower_char(c: char) -> (r: char)
    ensures
        r == ascii_lower(c),
{
    if 'A' <= c && c <= 'Z' {
        char_from_code(c as u32 + 32)
    } else {
        c
    }
}

fn char_from_code(u: u32) -> (c: char)
    requires
        97 <= u <= 122,
    ensures
        c == u as char,
{
    let b: u8 = u as u8;
    b as char
}

/// Whether two strings are equal when ASCII letters are compared without
/// case.
pub fn eq_ignore_ascii_case(a: &str, b: &str) -> (r: bool)
    ensures
        r == spec_eq_ignore_ascii_case(a@, b@),
{
    let v = str_chars(a);
    let w = str_chars(b);
    if v.len() != w.len() {
        return false;
    }
    let mut i: usize = 0;
    while i < v.len()
        invariant
            v@ == a@,
            w@ == b@,
            v@.len() == w@.len(),
            i <= v@.len(),
            forall|j: int| 0 <= j < i ==> ascii_lower(#[trigger] a@[j]) == ascii_lower(b@[j]),
        decreases v.len() - i,
    {
        if ascii_lower_char(v[i]) != ascii_lower_char(w[i]) {
            return false;
        }
        i = i + 1;
    }
    true
}

/// Extensions that preview always refuses: programs and scripts.
pub open spec fn is_builtin_blocked(ext: Seq<char>) -> bool {
    ext == "exe"@ || ext == "bat"@ || ext == "cmd"@ || ext == "ps1"@ || ext == "vbs"@ || ext
        == "vbe"@ || ext == "js"@ || ext == "jse"@ || ext == "wsf"@ || ext == "wsh"@ || ext
        == "msi"@ || ext == "scr"@ || ext == "com"@ || ext == "pif"@ || ext == "cpl"@ || ext
        == "sh"@ || ext == "bash"@ || ext == "py"@ || ext == "pyw"@ || ext == "rb"@ || ext
        == "pl"@ || ext == "php"@
}

fn builtin_blocked(ext: &str) -> (r: bool)
    ensures
        r == is_builtin_blocked(ext@),
{
    str_eq(ext, "exe") || str_eq(ext, "bat") || str_eq(ext, "cmd") || str_eq(ext, "ps1")
        || str_eq(ext, "vbs") || str_eq(ext, "vbe") || str_eq(ext, "js") || str_eq(ext, "jse")
        || str_eq(ext, "wsf") || str_eq(ext, "wsh") || str_eq(ext, "msi") || str_eq(ext, "scr")
        || str_eq(ext, "com") || str_eq(ext, "pif") || str_eq(ext, "cpl") || str_eq(ext, "sh")
        || str_eq(ext, "bash") || str_eq(ext, "py") || str_eq(ext, "pyw") || str_eq(ext, "rb")
        || str_eq(ext, "pl") || str_eq(ext, "php")
}

/// Preview refuses a file when its lowercased extension is a built-in
/// program or script type, or matches (ignoring ASCII case) one of the
/// user's extra extensions.
pub open spec fn spec_is_executable(extension: Option<Seq<char>>, user_blocked: Seq<Seq<char>>) -> bool {
    match extension {
        None => false,
        Some(e) => is_builtin_blocked(unicode_lowercase(e)) || exists|i: int|
            0 <= i < user_blocked.len() && spec_eq_ignore_ascii_case(
                #[trigger] user_blocked[i],
                unicode_lowercase(e),
            ),
    }
}

/// Whether preview must refuse a file with the given extension (as
/// `Path::extension` reports it; `None` when the file has none).
pub fn is_executable_file(extension: Option<&str>, user_blocked: &[String]) -> (r: bool)
    ensures
        r == spec_is_executable(
            match extension {
                Some(e) => Some(e@),
                None => None,
            },
            string_views(user_blocked@),
        ),
        extension matches Some(e) ==> (all_ascii(e@) ==> unicode_lowercase(e@) == e@.map_values(
            |c: char| ascii_lower(c),
        )),
{
    let e = match extension {
        Some(e) => e,
        None => return false,
    };
    let lower = to_lowercase(e);
    if builtin_blocked(lower.as_str()) {
        return true;
    }
    let ghost users = string_views(user_blocked@);
    let mut i: usize = 0;
    while i < user_blocked.len()
        invariant
            i <= user_blocked@.len(),
            users == string_views(user_blocked@),
            lower@ == unicode_lowercase(e@),
            all_ascii(e@) ==> lower@ == e@.map_values(|c: char| ascii_lower(c)),
            extension == Some(e),
            forall|j: int| 0 <= j < i ==> !spec_eq_ignore_ascii_case(#[trigger] users[j], lower@),
        decreases user_blocked.len() - i,
    {
        assert(users[i as int] == user_blocked@[i as int]@);
        if eq_ignore_ascii_case(user_blocked[i].as_str(), lower.as_str()) {
            assert(users[i as int] == user_blocked@[i as int]@);
            assert(spec_eq_ignore_ascii_case(users[i as int], unicode_lowercase(e@)));
            assert(exists|j: int|
                0 <= j < users.len() && spec_eq_ignore_ascii_case(
                    #[trigger] users[j],
                    unicode_lowercase(e@),
                ));
            return true;
        }
        i = i + 1;
    }
    false
}

} // verus!
