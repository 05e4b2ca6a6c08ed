//! Payloads handed to the Windows clipboard and keyboard: the bitmap built
//! from a PNG, UTF-16 text, and the `CF_HDROP` file list; and the results of
//! the text-input and clipboard entry points where no Win32 desktop exists.

use vstd::prelude::*;
use crate::text::string_views;
use crate::dib::{rgba_to_dib, spec_dib, le_u32};
use crate::text::{push_str, str_chars, to_owned_string};

verus! {

broadcast use vstd::string::group_string_axioms;

/// Pixels that `image::load_from_memory` followed by `to_rgba8` yields for
/// the given file bytes: width, height and RGBA bytes (top row first), or
/// `None` when the bytes do not decode.
pub uninterp spec fn decoded_rgba(bytes: Seq<u8>) -> Option<(u32, u32, Seq<u8>)>;

#[verifier::external_type_specification]
#[verifier::external_body]
pub struct ExImageError(image::ImageError);

/// Decodes an image file held in memory into RGBA pixels
/// (`image::load_from_memory`, then `DynamicImage::to_rgba8`).
///
/// Trusted: the result is `decoded_rgba` of the bytes, and the pixel buffer
/// holds at least four bytes per pixel (the `ImageBuffer` invariant).
#[verifier::external_body]
fn decode_image_rgba(bytes: &[u8]) -> (r: Result<(u32, u32, Vec<u8>), image::ImageError>)
    ensures
        match r {
            Ok((w, h, px)) => decoded_rgba(bytes@) == Some((w, h, px@)) && px@.len() >= 4 * w * h,
            Err(_) => decoded_rgba(bytes@) is None,
        },
{
    match image::load_from_memory(bytes) {
        Ok(img) => {
            let rgba = img.to_rgba8();
            let (w, h) = rgba.dimensions();
            Ok((w, h, rgba.into_raw()))
        },
        Err(e) => Err(e),
    }
}

/// The display text of an image decoding error (`ImageError`'s `Display`).
///
/// Trusted only to return some text: its wording is the image crate's.
#[verifier::external_body]
fn image_error_text(e: &image::ImageError) -> (r: String) {
    e.to_string()
}

/// Converts PNG file bytes into the bitmap placed in `CF_DIB`.
pub fn png_to_dib(png_data: &[u8]) -> (r: Result<Vec<u8>, String>)
    ensures
        match r {
            Ok(dib) => decoded_rgba(png_data@) matches Some((w, h, px)) && dib@ == spec_dib(w, h, px),
            Err(msg) => decoded_rgba(png_data@) is None && msg@.take("解析 PNG 失败: "@.len() as int) == "解析 PNG 失败: "@,
        },
{
    match decode_image_rgba(png_data) {
        Ok((w, h, px)) => Ok(rgba_to_dib(w, h, px.as_slice())),
        Err(e) => {
            let mut msg = to_owned_string("解析 PNG 失败: ");
            let ghost prefix = msg@;
            let detail = image_error_text(&e);
            push_str(&mut msg, detail.as_str());
            assert(msg@.take(prefix.len() as int) =~= prefix);
            Err(msg)
        },
    }
}

/// UTF-16 code units of one character.
pub open spec fn utf16_of_char(c: char) -> Seq<u16> {
    let u = c as u32;
    if u < 0x10000 {
        seq![u as u16]
    } else {
        let v = u - 0x10000;
        seq![(0xD800 + v / 1024) as u16, (0xDC00 + v % 1024) as u16]
    }
}

/// UTF-16 encoding of a character sequence.
pub open spec fn utf16_of(s: Seq<char>) -> Seq<u16>
    decreases s.len(),
{
    if s.len() == 0 {
        seq![]
    } else {
        utf16_of(s.drop_last()) + utf16_of_char(s.last())
    }
}

/// Little-endian bytes of a sequence of UTF-16 units.
pub open spec fn le_units(units: Seq<u16>) -> Seq<u8>
    decreases units.len(),
{
    if units.len() == 0 {
        seq![]
    } else {
        le_units(units.drop_last()) + seq![
            (units.last() % 256) as u8,
            (units.last() / 256) as u8,
        ]
    }
}

/// Appends the UTF-16 encoding of `s`.
pub fn push_utf16(out: &mut Vec<u16>, s: &str)
    ensures
        final(out)@ == old(out)@ + utf16_of(s@),
{
    let v = str_chars(s);
    let ghost start = out@;
    let mut i: usize = 0;
    while i < v.len()
        invariant
            v@ == s@,
            i <= v.len(),
            out@ == start + utf16_of(s@.take(i as int)),
        decreases v.len() - i,
    {
        let c = v[i];
        let u = c as u32;
        if u < 0x10000 {
            out.push(u as u16);
        } else {
            let d = u - 0x10000;
            out.push((0xD800 + d / 1024) as u16);
            out.push((0xDC00 + d % 1024) as u16);
        }
        assert(s@.take(i + 1).drop_last() =~= s@.take(i as int));
        assert(out@ =~= start + utf16_of(s@.take(i + 1)));
        i = i + 1;
    }
    assert(s@.take(v.len() as int) =~= s@);
}

/// The `CF_UNICODETEXT` payload: UTF-16 units of `text` followed by a NUL.
pub fn unicode_text_units(text: &str) -> (r: Vec<u16>)
    ensures
        r@ == utf16_of(text@).push(0u16),
{
    let mut out: Vec<u16> = Vec::new();
    push_utf16(&mut out, text);
    out.push(0u16);
    assert(out@ =~= utf16_of(text@).push(0u16));
    out
}

/// Size in bytes of the `DROPFILES` header that starts a `CF_HDROP` block.
pub const DROPFILES_SIZE: u32 = 20;

/// The `DROPFILES` header: file list offset, drop point (0, 0), not in a
/// non-client area, wide characters.
pub open spec fn dropfiles_header() -> Seq<u8> {
    le_u32(DROPFILES_SIZE) + le_u32(0) + le_u32(0) + le_u32(0) + le_u32(1)
}

/// The UTF-16 file list of a `CF_HDROP` block: every path followed by a NUL,
/// and one more NUL at the end.
pub open spec fn hdrop_file_list(paths: Seq<Seq<char>>) -> Seq<u16>
    decreases paths.len(),
{
    if paths.len() == 0 {
        seq![0u16]
    } else {
        utf16_of(paths[0]) + seq![0u16] + hdrop_file_list(paths.drop_first())
    }
}

fn push_le_units(out: &mut Vec<u8>, units: &Vec<u16>)
    ensures
        final(out)@ == old(out)@ + le_units(units@),
{
    let ghost start = out@;
    let mut i: usize = 0;
    while i < units.len()
        invariant
            i <= units.len(),
            out@ == start + le_units(units@.take(i as int)),
        decreases units.len() - i,
    {
        out.push((units[i] % 256) as u8);
        out.push((units[i] / 256) as u8);
        assert(units@.take(i + 1).drop_last() =~= units@.take(i as int));
        assert(out@ =~= start + le_units(units@.take(i + 1)));
        i = i + 1;
    }
    assert(units@.take(units.len() as int) =~= units@);
}

proof fn lemma_hdrop_list_split(paths: Seq<Seq<char>>, i: int)
    requires
        0 <= i < paths.len(),
    ensures
        hdrop_file_list(paths.skip(i)) == utf16_of(paths[i]) + seq![0u16] + hdrop_file_list(
            paths.skip(i + 1),
        ),
{
    assert(paths.skip(i).drop_first() =~= paths.skip(i + 1));
}

/// The `CF_HDROP` block naming the given files: the `DROPFILES` header, then
/// the file list in little-endian UTF-16.
pub fn hdrop_payload(paths: &Vec<String>) -> (r: Vec<u8>)
    ensures
        r@ == dropfiles_header() + le_units(
            hdrop_file_list(string_views(paths@)),
        ),
{
    let ghost views = string_views(paths@);
    let mut units: Vec<u16> = Vec::new();
    let mut i: usize = 0;
    assert(views.skip(0) =~= views);
    assert(units@ + hdrop_file_list(views) =~= hdrop_file_list(views));
    while i < paths.len()
        invariant
            i <= paths.len(),
            views == string_views(paths@),
            units@ + hdrop_file_list(views.skip(i as int)) == hdrop_file_list(views),
        decreases paths.len() - i,
    {
        let ghost before = units@;
        proof {
            lemma_hdrop_list_split(views, i as int);
        }
        push_utf16(&mut units, paths[i].as_str());
        units.push(0u16);
        assert(units@ + hdrop_file_list(views.skip(i + 1)) =~= before + hdrop_file_list(
            views.skip(i as int),
        ));
        i = i + 1;
    }
    assert(views.skip(paths.len() as int).len() == 0);
    units.push(0u16);
    assert(units@ =~= hdrop_file_list(views));
    let mut out: Vec<u8> = Vec::new();
    out.push(20u8); out.push(0u8); out.push(0u8); out.push(0u8);
    let mut k: usize = 0;
    while k < 12
        invariant
            k <= 12,
            out@ == le_u32(DROPFILES_SIZE) + Seq::new(k as nat, |_j: int| 0u8),
        decreases 12 - k,
    {
        out.push(0u8);
        assert(out@ =~= le_u32(DROPFILES_SIZE) + Seq::new((k + 1) as nat, |_j: int| 0u8));
        k = k + 1;
    }
    out.push(1u8); out.push(0u8); out.push(0u8); out.push(0u8);
    assert(out@ =~= dropfiles_header());
    push_le_units(&mut out, &units);
    out
}

/// Keyboard scan values sent for each character of `text`: the character's
/// code point truncated to 16 bits.
pub fn unicode_scan_codes(text: &str) -> (r: Vec<u16>)
    ensures
        r@.len() == text@.len(),
        forall|i: int| 0 <= i < text@.len() ==> #[trigger] r@[i] == (text@[i] as u32) as u16,
{
    let v = str_chars(text);
    let mut out: Vec<u16> = Vec::new();
    let mut i: usize = 0;
    while i < v.len()
        invariant
            v@ == text@,
            i <= v.len(),
            out@.len() == i,
            forall|j: int| 0 <= j < i ==> #[trigger] out@[j] == (text@[j] as u32) as u16,
        decreases v.len() - i,
    {
        out.push((v[i] as u32) as u16);
        i = i + 1;
    }
    out
}

/// Types `text` into the focused window. Empty text needs no input and
/// succeeds; any other text fails here, where no Win32 input queue exists.
pub fn send_text_with_ime(text: &str) -> (r: Result<(), String>)
    ensures
        text@.len() == 0 ==> r is Ok,
        text@.len() > 0 ==> (r matches Err(e) && e@ == "SendInput 仅在 Windows 上可用"@),
{
    if text.unicode_len() == 0 {
        return Ok(());
    }
    Err(to_owned_string("SendInput 仅在 Windows 上可用"))
}

/// Publishes a capture on the clipboard in several formats. There is no
/// Win32 clipboard here, so it always fails.
pub fn set_multi_format_clipboard(text_path: &str, win_image_path: &str) -> (r: Result<(), String>)
    ensures
        r matches Err(e) && e@ == "剪贴板操作仅在 Windows 上可用"@,
{
    Err(to_owned_string("剪贴板操作仅在 Windows 上可用"))
}

} // verus!
