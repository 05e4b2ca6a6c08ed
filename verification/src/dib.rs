//! Conversion of decoded RGBA pixels into a device-independent bitmap
//! (BITMAPINFOHEADER followed by bottom-up BGRA rows), as placed in `CF_DIB`.

use vstd::prelude::*;
use vstd::arithmetic::div_mod::lemma_fundamental_div_mod_converse;
use vstd::arithmetic::mul::lemma_mul_inequality;

verus! {

/// Little-endian bytes of a `u32`.
pub open spec fn le_u32(v: u32) -> Seq<u8> {
    seq![(v % 256) as u8, ((v / 256) % 256) as u8, ((v / 65536) % 256) as u8, (v / 16777216) as u8]
}

/// The `biSizeImage` field: `width * height * 32 / 8`, computed in `u32`
/// arithmetic that wraps on overflow.
pub open spec fn dib_image_size(width: u32, height: u32) -> u32 {
    (width.wrapping_mul(height).wrapping_mul(32) / 8) as u32
}

/// The 40-byte BITMAPINFOHEADER of a 32-bit uncompressed bitmap.
pub open spec fn dib_header(width: u32, height: u32) -> Seq<u8> {
    le_u32(40) + le_u32(width) + le_u32(height) + seq![1u8, 0u8] + seq![32u8, 0u8] + le_u32(0)
        + le_u32(dib_image_size(width, height)) + le_u32(0) + le_u32(0) + le_u32(0) + le_u32(0)
}

/// Byte `i` of the pixel area: pixel `i / 4` in bottom-up row order, byte
/// `i % 4` in B, G, R, A order, read from the top-down RGBA source.
pub open spec fn dib_pixel_byte(width: int, height: int, rgba: Seq<u8>, i: int) -> u8 {
    let p = i / 4;
    let row = p / width;
    let col = p % width;
    let src = 4 * ((height - 1 - row) * width + col);
    let k = i % 4;
    if k == 0 {
        rgba[src + 2]
    } else if k == 1 {
        rgba[src + 1]
    } else if k == 2 {
        rgba[src]
    } else {
        rgba[src + 3]
    }
}

/// The pixel area of the bitmap.
pub open spec fn dib_pixels(width: int, height: int, rgba: Seq<u8>) -> Seq<u8> {
    Seq::new((4 * width * height) as nat, |i: int| dib_pixel_byte(width, height, rgba, i))
}

/// The whole bitmap: header, then pixels.
pub open spec fn spec_dib(width: u32, height: u32, rgba: Seq<u8>) -> Seq<u8> {
    dib_header(width, height) + dib_pixels(width as int, height as int, rgba)
}

/// A bitmap holds its 40-byte header and four bytes per pixel.
pub proof fn law_dib_len(width: u32, height: u32, rgba: Seq<u8>)
    ensures
        spec_dib(width, height, rgba).len() == 40 + 4 * width * height,
{
    assert(0 <= 4 * width * height) by (nonlinear_arith);
}

fn push_le_u32(v: &mut Vec<u8>, x: u32)
    ensures
        final(v)@ == old(v)@ + le_u32(x),
{
    v.push((x % 256) as u8);
    v.push(((x / 256) % 256) as u8);
    v.push(((x / 65536) % 256) as u8);
    v.push((x / 16777216) as u8);
    assert(v@ =~= old(v)@ + le_u32(x));
}

proof fn lemma_pixel_index(width: int, height: int, rgba: Seq<u8>, r: int, x: int, k: int)
    requires
        0 <= r < height,
        0 <= x < width,
        0 <= k < 4,
    ensures
        dib_pixel_byte(width, height, rgba, 4 * (r * width + x) + k) == ({
            let src = 4 * ((height - 1 - r) * width + x);
            if k == 0 {
                rgba[src + 2]
            } else if k == 1 {
                rgba[src + 1]
            } else if k == 2 {
                rgba[src]
            } else {
                rgba[src + 3]
            }
        }),
{
    let p = r * width + x;
    let i = 4 * p + k;
    lemma_fundamental_div_mod_converse(i, 4, p, k);
    lemma_fundamental_div_mod_converse(p, width, r, x);
}

proof fn lemma_pixel_in_bounds(width: int, height: int, y: int, x: int)
    requires
        0 <= y < height,
        0 <= x < width,
    ensures
        y * width + x < width * height,
        0 <= y * width + x,
{
    lemma_mul_inequality(y, height - 1, width);
    assert((height - 1) * width == height * width - width) by (nonlinear_arith);
    assert(width * height == height * width) by (nonlinear_arith);
    assert(0 <= y * width) by (nonlinear_arith)
        requires
            0 <= y,
            0 <= width,
    ;
}

/// Builds the bitmap of a `width` x `height` image whose pixels are given top
/// row first, four bytes (R, G, B, A) each; bytes past the last pixel are
/// ignored.
pub fn rgba_to_dib(width: u32, height: u32, rgba: &[u8]) -> (r: Vec<u8>)
    requires
        rgba@.len() >= 4 * width * height,
    ensures
        r@ == spec_dib(width, height, rgba@),
{
    let ghost w = width as int;
    let ghost h = height as int;
    let ghost pixels = dib_pixels(w, h, rgba@);
    let n: usize = rgba.len();
    let mut dib: Vec<u8> = Vec::new();
    let image_size: u32 = width.wrapping_mul(height).wrapping_mul(32) / 8;
    push_le_u32(&mut dib, 40);
    push_le_u32(&mut dib, width);
    push_le_u32(&mut dib, height);
    dib.push(1u8);
    dib.push(0u8);
    dib.push(32u8);
    dib.push(0u8);
    push_le_u32(&mut dib, 0);
    push_le_u32(&mut dib, image_size);
    push_le_u32(&mut dib, 0);
    push_le_u32(&mut dib, 0);
    push_le_u32(&mut dib, 0);
    push_le_u32(&mut dib, 0);
    let ghost header = dib@;
    assert(header =~= dib_header(width, height));
    assert(w * h * 4 == 4 * w * h) by (nonlinear_arith);
    let mut row: u32 = 0;
    while row < height
        invariant
            row <= height,
            w == width,
            h == height,
            rgba@.len() >= 4 * w * h,
            n == rgba@.len(),
            pixels == dib_pixels(w, h, rgba@),
            header == dib_header(width, height),
            dib@ == header + pixels.take(4 * (row * w)),
        decreases height - row,
    {
        let y: u32 = height - 1 - row;
        let mut x: u32 = 0;
        while x < width
            invariant
                row < height,
                y == height - 1 - row,
                x <= width,
                w == width,
                h == height,
                rgba@.len() >= 4 * w * h,
                n == rgba@.len(),
                pixels == dib_pixels(w, h, rgba@),
                header == dib_header(width, height),
                dib@ == header + pixels.take(4 * (row * w + x)),
            decreases width - x,
        {
            proof {
                lemma_pixel_in_bounds(w, h, y as int, x as int);
                lemma_pixel_in_bounds(w, h, row as int, x as int);
                assert(w * h * 4 == 4 * w * h) by (nonlinear_arith);
                assert(y * w <= y * w + x);
            }
            let base: usize = ((y as usize) * (width as usize) + x as usize) * 4;
            let ghost before = dib@;
            dib.push(rgba[base + 2]);
            dib.push(rgba[base + 1]);
            dib.push(rgba[base]);
            dib.push(rgba[base + 3]);
            proof {
                let p = row * w + x;
                lemma_pixel_index(w, h, rgba@, row as int, x as int, 0);
                lemma_pixel_index(w, h, rgba@, row as int, x as int, 1);
                lemma_pixel_index(w, h, rgba@, row as int, x as int, 2);
                lemma_pixel_index(w, h, rgba@, row as int, x as int, 3);
                assert(pixels.take(4 * (p + 1)) =~= pixels.take(4 * p) + seq![
                    pixels[4 * p],
                    pixels[4 * p + 1],
                    pixels[4 * p + 2],
                    pixels[4 * p + 3],
                ]);
                assert(dib@ =~= header + pixels.take(4 * (row * w + x + 1)));
            }
            x = x + 1;
        }
        assert(row * w + w == (row + 1) * w) by (nonlinear_arith);
        row = row + 1;
    }
    assert(pixels.take(4 * (h * w)) =~= pixels) by {
        assert(h * w == w * h) by (nonlinear_arith);
    }
    dib
}

/// The unsigned little-endian integer in bytes `i..i + 4` of `b`.
pub open spec fn u32_le_at(b: Seq<u8>, i: int) -> int {
    b[i] + 256 * b[i + 1] + 65536 * b[i + 2] + 16777216 * b[i + 3]
}

proof fn lemma_le_u32_value(v: u32)
    ensures
        u32_le_at(le_u32(v), 0) == v,
{
    let b = le_u32(v);
    assert(b[0] == v % 256 && b[1] == (v / 256) % 256 && b[2] == (v / 65536) % 256 && b[3] == v
        / 16777216);
    assert(v % 256 + 256 * ((v / 256) % 256) + 65536 * ((v / 65536) % 256) + 16777216 * (v
        / 16777216) == v) by (bit_vector);
}

/// The bitmap's header describes the image it holds: a 40-byte header
/// (`biSize`), the image's own width (`biWidth`) and height (`biHeight`,
/// positive: rows bottom-up), one plane of 32 bits per pixel, no
/// compression; and the pixel rows follow it.
pub proof fn law_dib_header_records_image(width: u32, height: u32, rgba: Seq<u8>)
    ensures
        u32_le_at(spec_dib(width, height, rgba), 0) == 40,
        u32_le_at(spec_dib(width, height, rgba), 4) == width,
        u32_le_at(spec_dib(width, height, rgba), 8) == height,
        spec_dib(width, height, rgba)[12] == 1 && spec_dib(width, height, rgba)[13] == 0,
        spec_dib(width, height, rgba)[14] == 32 && spec_dib(width, height, rgba)[15] == 0,
        u32_le_at(spec_dib(width, height, rgba), 16) == 0,
        spec_dib(width, height, rgba).len() == 40 + 4 * width * height,
{
    let b = spec_dib(width, height, rgba);
    law_dib_len(width, height, rgba);
    lemma_le_u32_value(40);
    lemma_le_u32_value(width);
    lemma_le_u32_value(height);
    lemma_le_u32_value(0);
    let hd = dib_header(width, height);
    assert(b.subrange(0, 4) =~= le_u32(40));
    assert(b.subrange(4, 8) =~= le_u32(width));
    assert(b.subrange(8, 12) =~= le_u32(height));
    assert(b.subrange(16, 20) =~= le_u32(0));
    assert(u32_le_at(b, 0) == u32_le_at(b.subrange(0, 4), 0));
    assert(u32_le_at(b, 4) == u32_le_at(b.subrange(4, 8), 0));
    assert(u32_le_at(b, 8) == u32_le_at(b.subrange(8, 12), 0));
    assert(u32_le_at(b, 16) == u32_le_at(b.subrange(16, 20), 0));
}

proof fn lemma_flipped_index(w: int, h: int, x: int, y: int)
    requires
        0 <= x < w,
        0 <= y < h,
    ensures
        0 <= (h - 1 - y) * w + x,
        4 * ((h - 1 - y) * w + x) + 3 < 4 * w * h,
        ((h - 1 - y) * w + x) / w == h - 1 - y,
        ((h - 1 - y) * w + x) % w == x,
{
    let r = h - 1 - y;
    assert(0 <= r * w) by (nonlinear_arith)
        requires
            0 <= r,
            0 <= w,
    ;
    assert(r * w + w <= h * w) by (nonlinear_arith)
        requires
            0 <= w,
            r + 1 <= h,
    ;
    assert(4 * (h * w) == 4 * w * h) by (nonlinear_arith);
    lemma_fundamental_div_mod_converse(r * w + x, w, r, x);
}

/// Pixel `(x, y)` of the image (row `y` from the top) stands in the bitmap
/// at row `height - 1 - y` from the bottom, as blue, green, red, alpha.
pub proof fn law_dib_pixel_placement(width: u32, height: u32, rgba: Seq<u8>, x: int, y: int)
    requires
        0 <= x < width,
        0 <= y < height,
    ensures
        ({
            let at = 40 + 4 * ((height - 1 - y) * width + x);
            let src = 4 * (y * width + x);
            &&& spec_dib(width, height, rgba)[at] == rgba[src + 2]
            &&& spec_dib(width, height, rgba)[at + 1] == rgba[src + 1]
            &&& spec_dib(width, height, rgba)[at + 2] == rgba[src]
            &&& spec_dib(width, height, rgba)[at + 3] == rgba[src + 3]
        }),
{
    let w = width as int;
    let h = height as int;
    let p = (h - 1 - y) * w + x;
    lemma_flipped_index(w, h, x, y);
    law_dib_len(width, height, rgba);
    let b = spec_dib(width, height, rgba);
    let px = dib_pixels(w, h, rgba);
    assert(b[40 + 4 * p] == px[4 * p]);
    assert(b[40 + 4 * p + 1] == px[4 * p + 1]);
    assert(b[40 + 4 * p + 2] == px[4 * p + 2]);
    assert(b[40 + 4 * p + 3] == px[4 * p + 3]);
    assert((4 * p) / 4 == p && (4 * p + 1) / 4 == p && (4 * p + 2) / 4 == p && (4 * p + 3) / 4 == p);
    assert((4 * p) % 4 == 0 && (4 * p + 1) % 4 == 1 && (4 * p + 2) % 4 == 2 && (4 * p + 3) % 4 == 3);
    assert(h - 1 - (h - 1 - y) == y);
}

} // verus!
