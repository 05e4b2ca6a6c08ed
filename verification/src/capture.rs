//! Turning a captured clipboard image into the PNG file kept in history,
//! and recognising PNG files among copied ones.

use vstd::prelude::*;

verus! {

/// The PNG file that the image crate writes for an RGBA image of the given
/// size whose pixels are `rgba`, top row first.
pub uninterp spec fn png_encoding(width: u32, height: u32, rgba: Seq<u8>) -> Seq<u8>;

/// Encodes RGBA pixels as PNG (`ImageBuffer::from_raw`, then `write_to`
/// with `ImageFormat::Png` into memory).
///
/// Trusted: a PNG comes back exactly when the buffer holds at least
/// `4 * width * height` bytes (`from_raw` refuses fewer) and neither side is
/// zero (the png encoder refuses a zero width or height); it is
/// `png_encoding` of the first `4 * width * height` bytes, the pixels that
/// the encoder reads. Writing into memory has no other failure in the
/// image and png sources; running out of memory aborts rather than returns.
#[verifier::external_body]
fn encode_png(width: u32, height: u32, rgba: &[u8]) -> (r: Option<Vec<u8>>)
    ensures
        rgba@.len() >= 4 * width * height && width > 0 && height > 0 ==> r is Some,
        r matches Some(b) ==> rgba@.len() >= 4 * width * height && width > 0 && height > 0 && b@
            == png_encoding(width, height, rgba@.take(4 * width * height)),
{
    let img = image::RgbaImage::from_raw(width, height, rgba.to_vec())?;
    let mut out = std::io::Cursor::new(Vec::new());
    match img.write_to(&mut out, image::ImageFormat::Png) {
        Ok(()) => Some(out.into_inner()),
        Err(_) => None,
    }
}

/// The PNG file of a captured image whose size the clipboard reports as
/// `width` by `height` (each taken modulo 2^32, as a `u32`), or `None`
/// when the pixels do not fill that size or a side is zero.
pub fn encode_capture(width: usize, height: usize, rgba: &[u8]) -> (r: Option<Vec<u8>>)
    ensures
        r is Some <==> rgba@.len() >= 4 * (width as u32) * (height as u32) && (width as u32) > 0
            && (height as u32) > 0,
        r matches Some(b) ==> b@ == png_encoding(
            width as u32,
            height as u32,
            rgba@.take(4 * (width as u32) * (height as u32)),
        ),
{
    encode_png(width as u32, height as u32, rgba)
}

/// The first bytes of a PNG file, as far as a PNG check reads them.
pub open spec fn spec_has_png_signature(head: Seq<u8>) -> bool {
    head.len() >= 8 && head[0] == 0x89 && head[1] == 0x50 && head[2] == 0x4E && head[3] == 0x47
}

/// Whether the first bytes of a file mark it as PNG: eight bytes could be
/// read and they begin with `\x89PNG`.
pub fn has_png_signature(head: &[u8]) -> (r: bool)
    ensures
        r == spec_has_png_signature(head@),
{
    head.len() >= 8 && head[0] == 0x89 && head[1] == 0x50 && head[2] == 0x4E && head[3] == 0x47
}

} // verus!
