//! MD5 fingerprints of captured pixel data, as lowercase hex text.

use vstd::prelude::*;
use md5::Digest;
use crate::text::push_char;

verus! {

/// The 16-byte MD5 digest of `data`.
pub uninterp spec fn md5_digest(data: Seq<u8>) -> Seq<u8>;

/// MD5 of a byte slice (`md5::Md5::digest`, i.e. new, update, finalize).
///
/// Trusted: the result is `md5_digest(data)` and holds 16 bytes, the
/// algorithm's fixed output size.
#[verifier::external_body]
fn md5_bytes(data: &[u8]) -> (r: Vec<u8>)
    ensures
        r@ == md5_digest(data@),
        r@.len() == 16,
{
    md5::Md5::digest(data).to_vec()
}

/// The lowercase hexadecimal digit for `d` (0..=15).
pub open spec fn hex_digit(d: int) -> char {
    if d < 10 {
        (48 + d) as char
    } else {
        (87 + d) as char
    }
}

/// Each byte as two lowercase hexadecimal digits, high nibble first (the
/// `{:x}` format of a digest).
pub open spec fn hex_lower(bytes: Seq<u8>) -> Seq<char>
    decreases bytes.len(),
{
    if bytes.len() == 0 {
        seq![]
    } else {
        hex_lower(bytes.drop_last()) + seq![
            hex_digit((bytes.last() / 16) as int),
            hex_digit((bytes.last() % 16) as int),
        ]
    }
}

fn hex_char(d: u8) -> (c: char)
    requires
        d < 16,
    ensures
        c == hex_digit(d as int),
{
    if d < 10 {
        (48u8 + d) as char
    } else {
        (87u8 + d) as char
    }
}

/// Lowercase hex text of a byte sequence.
pub fn to_hex_lower(bytes: &[u8]) -> (r: String)
    ensures
        r@ == hex_lower(bytes@),
{
    let mut s = String::new();
    let mut i: usize = 0;
    while i < bytes.len()
        invariant
            i <= bytes@.len(),
            s@ == hex_lower(bytes@.take(i as int)),
        decreases bytes.len() - i,
    {
        push_char(&mut s, hex_char(bytes[i] / 16));
        push_char(&mut s, hex_char(bytes[i] % 16));
        assert(bytes@.take(i + 1).drop_last() =~= bytes@.take(i as int));
        assert(s@ =~= hex_lower(bytes@.take(i + 1)));
        i = i + 1;
    }
    assert(bytes@.take(bytes@.len() as int) =~= bytes@);
    s
}

/// Hex text has two digits per byte.
pub proof fn lemma_hex_lower_len(bytes: Seq<u8>)
    ensures
        hex_lower(bytes).len() == 2 * bytes.len(),
    decreases bytes.len(),
{
    if bytes.len() > 0 {
        lemma_hex_lower_len(bytes.drop_last());
    }
}

/// The MD5 fingerprint of `data` as 32 lowercase hex digits.
pub fn content_md5(data: &[u8]) -> (r: String)
    ensures
        r@ == hex_lower(md5_digest(data@)),
        r@.len() == 32,
{
    let d = md5_bytes(data);
    proof {
        lemma_hex_lower_len(d@);
    }
    to_hex_lower(d.as_slice())
}

/// The value of a lowercase hexadecimal digit character.
pub open spec fn hex_value(c: char) -> int {
    if '0' <= c <= '9' {
        c as int - 48
    } else {
        c as int - 87
    }
}

/// Hex text reads back as the bytes it was made from: characters `2i` and
/// `2i + 1` are lowercase hex digits (`0-9`, `a-f`) giving the high and
/// low nibble of byte `i`.
pub proof fn law_hex_reads_back(bytes: Seq<u8>)
    ensures
        hex_lower(bytes).len() == 2 * bytes.len(),
        forall|j: int|
            0 <= j < hex_lower(bytes).len() ==> ('0' <= #[trigger] hex_lower(bytes)[j] <= '9' || 'a'
                <= hex_lower(bytes)[j] <= 'f'),
        forall|i: int|
            0 <= i < bytes.len() ==> hex_value(hex_lower(bytes)[2 * i]) * 16 + hex_value(
                hex_lower(bytes)[2 * i + 1],
            ) == #[trigger] bytes[i],
    decreases bytes.len(),
{
    lemma_hex_lower_len(bytes);
    if bytes.len() > 0 {
        let init = bytes.drop_last();
        law_hex_reads_back(init);
        let h = hex_lower(bytes);
        let hi = init.len();
        let b = bytes.last();
        assert(h == hex_lower(init) + seq![hex_digit((b / 16) as int), hex_digit((b % 16) as int)]);
        assert(((b / 16) as int) < 10 ==> ((48 + (b / 16) as int) as char) as int == 48 + b / 16);
        assert(((b / 16) as int) >= 10 ==> ((87 + (b / 16) as int) as char) as int == 87 + b / 16);
        assert(((b % 16) as int) < 10 ==> ((48 + (b % 16) as int) as char) as int == 48 + b % 16);
        assert(((b % 16) as int) >= 10 ==> ((87 + (b % 16) as int) as char) as int == 87 + b % 16);
        assert forall|j: int| 0 <= j < h.len() implies ('0' <= #[trigger] h[j] <= '9' || 'a' <= h[j]
            <= 'f') by {
            if j < 2 * hi {
                assert(h[j] == hex_lower(init)[j]);
            }
        }
        assert forall|i: int| 0 <= i < bytes.len() implies hex_value(h[2 * i]) * 16 + hex_value(
            h[2 * i + 1],
        ) == #[trigger] bytes[i] by {
            if i < hi {
                assert(h[2 * i] == hex_lower(init)[2 * i]);
                assert(h[2 * i + 1] == hex_lower(init)[2 * i + 1]);
                assert(init[i] == bytes[i]);
            } else {
                assert(h[2 * i] == hex_digit((b / 16) as int));
                assert(h[2 * i + 1] == hex_digit((b % 16) as int));
            }
        }
    }
}

} // verus!
