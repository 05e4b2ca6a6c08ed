//! Reading the file list back out of a `CF_HDROP` block that another
//! program (Explorer, usually) placed on the clipboard.

use vstd::prelude::*;
use crate::input::{utf16_of, utf16_of_char, le_units, dropfiles_header, hdrop_file_list};
use crate::dib::le_u32;

verus! {

/// The 16-bit units of a little-endian byte string, two bytes each; a
/// trailing odd byte is ignored.
pub open spec fn units_of_le(b: Seq<u8>) -> Seq<u16> {
    Seq::new((b.len() / 2) as nat, |i: int| (b[2 * i] + 256 * b[2 * i + 1]) as u16)
}

/// The names of a NUL-separated list, where `cur` holds the units of the
/// name read so far. An empty name (two NULs in a row) ends the list, and
/// so does the end of the data, which drops an unterminated name.
pub open spec fn names_from(u: Seq<u16>, cur: Seq<u16>) -> Seq<Seq<u16>>
    decreases u.len(),
{
    if u.len() == 0 {
        seq![]
    } else if u[0] == 0 {
        if cur.len() == 0 {
            seq![]
        } else {
            seq![cur] + names_from(u.drop_first(), seq![])
        }
    } else {
        names_from(u.drop_first(), cur.push(u[0]))
    }
}

/// The first header field of a `CF_HDROP` block: where its file list starts.
pub open spec fn file_list_offset(b: Seq<u8>) -> int {
    b[0] + 256 * b[1] + 65536 * b[2] + 16777216 * b[3]
}

/// The UTF-16 names listed in a `CF_HDROP` block, or none when the block is
/// too short to hold the offset of its list or the offset lies past its end.
pub open spec fn hdrop_block_names(b: Seq<u8>) -> Seq<Seq<u16>> {
    if b.len() < 4 || file_list_offset(b) > b.len() {
        seq![]
    } else {
        names_from(units_of_le(b.skip(file_list_offset(b))), seq![])
    }
}

/// The UTF-16 names listed in a `CF_HDROP` block.
pub fn hdrop_file_names(block: &[u8]) -> (r: Vec<Vec<u16>>)
    ensures
        r@.map_values(|v: Vec<u16>| v@) == hdrop_block_names(block@),
{
    let mut out: Vec<Vec<u16>> = Vec::new();
    if block.len() < 4 {
        assert(out@.map_values(|v: Vec<u16>| v@) =~= hdrop_block_names(block@));
        return out;
    }
    let offset: u64 = block[0] as u64 + 256 * (block[1] as u64) + 65536 * (block[2] as u64)
        + 16777216 * (block[3] as u64);
    if offset > block.len() as u64 {
        assert(out@.map_values(|v: Vec<u16>| v@) =~= hdrop_block_names(block@));
        return out;
    }
    let start: usize = offset as usize;
    let ghost u = units_of_le(block@.skip(start as int));
    let n: usize = (block.len() - start) / 2;
    assert(u.len() == n);
    assert(2 * n <= block.len() - start);
    assert(u.skip(0) =~= u);
    assert(out@.map_values(|v: Vec<u16>| v@) =~= Seq::<Seq<u16>>::empty());
    let mut cur: Vec<u16> = Vec::new();
    assert(names_from(u, seq![]) =~= out@.map_values(|v: Vec<u16>| v@) + names_from(u.skip(0), cur@));
    let mut k: usize = 0;
    while k < n
        invariant_except_break
            k <= n,
            names_from(u, seq![]) == out@.map_values(|v: Vec<u16>| v@) + names_from(u.skip(k as int), cur@),
        invariant
            n == u.len(),
            start + 2 * n <= block@.len(),
            block@.len() == block.len(),
            u == units_of_le(block@.skip(start as int)),
        ensures
            names_from(u, seq![]) == out@.map_values(|v: Vec<u16>| v@),
        decreases n - k,
    {
        assert(2 * k + 2 <= 2 * n);
        let at: usize = start + 2 * k;
        let unit: u16 = (block[at] as u16) + 256 * (block[at + 1] as u16);
        assert(unit == u[k as int]);
        assert(u.skip(k as int).drop_first() =~= u.skip(k + 1));
        assert(u.skip(k as int)[0] == u[k as int]);
        if unit == 0 {
            if cur.len() == 0 {
                assert(out@.map_values(|v: Vec<u16>| v@) + seq![] =~= out@.map_values(|v: Vec<u16>| v@));
                break;
            }
            let ghost before = out@.map_values(|v: Vec<u16>| v@);
            let ghost name = cur@;
            out.push(cur);
            cur = Vec::new();
            assert(out@.map_values(|v: Vec<u16>| v@) =~= before.push(name));
            assert(before + (seq![name] + names_from(u.skip(k + 1), seq![])) =~= before.push(name)
                + names_from(u.skip(k + 1), seq![]));
        } else {
            cur.push(unit);
        }
        k = k + 1;
    }
    out
}

/// UTF-16 decoding in which every unpaired surrogate becomes U+FFFD, as
/// `String::from_utf16_lossy` decodes: a unit outside the surrogate range
/// is its own character, a high surrogate followed by a low one is the
/// character they encode, and any other surrogate is replaced.
pub open spec fn utf16_lossy(u: Seq<u16>) -> Seq<char>
    decreases u.len(),
{
    if u.len() == 0 {
        seq![]
    } else if u[0] < 0xD800 || u[0] > 0xDFFF {
        seq![(u[0] as u32) as char] + utf16_lossy(u.drop_first())
    } else if u[0] <= 0xDBFF && u.len() >= 2 && 0xDC00 <= u[1] && u[1] <= 0xDFFF {
        seq![((0x10000 + (u[0] - 0xD800) * 1024 + (u[1] - 0xDC00)) as u32) as char] + utf16_lossy(
            u.skip(2),
        )
    } else {
        seq!['\u{FFFD}'] + utf16_lossy(u.drop_first())
    }
}

/// `String::from_utf16_lossy`. Trusted: the result is `utf16_lossy` of the
/// units.
#[verifier::external_body]
fn from_utf16_lossy(units: &[u16]) -> (r: String)
    ensures
        r@ == utf16_lossy(units@),
{
    String::from_utf16_lossy(units)
}

proof fn lemma_utf16_of_concat(a: Seq<char>, b: Seq<char>)
    ensures
        utf16_of(a + b) == utf16_of(a) + utf16_of(b),
    decreases b.len(),
{
    if b.len() > 0 {
        assert((a + b).drop_last() =~= a + b.drop_last());
        assert((a + b).last() == b.last());
        lemma_utf16_of_concat(a, b.drop_last());
        assert(utf16_of(a + b) =~= utf16_of(a) + utf16_of(b));
    } else {
        assert(a + b =~= a);
        assert(utf16_of(a) + utf16_of(b) =~= utf16_of(a));
    }
}

/// Decoding the UTF-16 encoding of a text gives the text back.
pub proof fn lemma_utf16_round_trip(s: Seq<char>)
    ensures
        utf16_lossy(utf16_of(s)) == s,
    decreases s.len(),
{
    if s.len() > 0 {
        let c = s[0];
        let rest = s.drop_first();
        assert(seq![c] + rest =~= s);
        lemma_utf16_of_concat(seq![c], rest);
        assert(seq![c].drop_last() =~= Seq::<char>::empty());
        assert(seq![c].last() == c);
        assert(utf16_of(Seq::<char>::empty()) =~= Seq::<u16>::empty());
        assert(utf16_of(seq![c]) == utf16_of(seq![c].drop_last()) + utf16_of_char(c));
        assert(utf16_of(seq![c]) =~= utf16_of_char(c));
        lemma_utf16_round_trip(rest);
        let t = utf16_of_char(c);
        let x = t + utf16_of(rest);
        let u = c as u32;
        vstd::utf8::char_is_scalar(c);
        vstd::utf8::char_u32_cast(c, u);
        if u < 0x10000 {
            assert(!(0xD800 <= u <= 0xDFFF));
            assert(x[0] == u as u16);
            assert((u as u16) as u32 == u);
            assert(x.drop_first() =~= utf16_of(rest));
            assert(utf16_lossy(x) =~= seq![c] + rest);
        } else {
            let v = u - 0x10000;
            let hi = (0xD800 + v / 1024) as u16;
            let lo = (0xDC00 + v % 1024) as u16;
            assert(x[0] == hi && x[1] == lo);
            assert(0x10000 + (hi - 0xD800) * 1024 + (lo - 0xDC00) == u);
            assert(x.skip(2) =~= utf16_of(rest));
            assert(utf16_lossy(x) =~= seq![c] + rest);
        }
        assert(utf16_of(s) == x);
    }
}

/// The paths listed in a `CF_HDROP` block, decoded from UTF-16.
pub fn hdrop_file_paths(block: &[u8]) -> (r: Vec<String>)
    ensures
        r@.len() == hdrop_block_names(block@).len(),
        forall|i: int|
            0 <= i < r@.len() ==> #[trigger] r@[i]@ == utf16_lossy(hdrop_block_names(block@)[i]),
        forall|i: int, s: Seq<char>|
            #![trigger r@[i], utf16_of(s)]
            0 <= i < r@.len() && utf16_of(s) == hdrop_block_names(block@)[i] ==> r@[i]@ == s,
{
    let names = hdrop_file_names(block);
    let ghost views = names@.map_values(|v: Vec<u16>| v@);
    let mut out: Vec<String> = Vec::new();
    let mut i: usize = 0;
    while i < names.len()
        invariant
            i <= names@.len(),
            views == names@.map_values(|v: Vec<u16>| v@),
            views == hdrop_block_names(block@),
            out@.len() == i,
            forall|j: int| 0 <= j < i ==> #[trigger] out@[j]@ == utf16_lossy(views[j]),
            forall|j: int, s: Seq<char>|
                #![trigger out@[j], utf16_of(s)]
                0 <= j < i && utf16_of(s) == views[j] ==> out@[j]@ == s,
        decreases names.len() - i,
    {
        assert(views[i as int] == names@[i as int]@);
        let path = from_utf16_lossy(names[i].as_slice());
        proof {
            assert forall|s: Seq<char>| utf16_of(s) == views[i as int] implies path@ == s by {
                lemma_utf16_round_trip(s);
            }
        }
        out.push(path);
        i = i + 1;
    }
    out
}

proof fn lemma_le_units(u: Seq<u16>)
    ensures
        le_units(u).len() == 2 * u.len(),
        forall|i: int|
            0 <= i < u.len() ==> le_units(u)[2 * i] == #[trigger] u[i] % 256 && le_units(u)[2 * i
                + 1] == u[i] / 256,
    decreases u.len(),
{
    if u.len() > 0 {
        lemma_le_units(u.drop_last());
        assert forall|i: int| 0 <= i < u.len() implies le_units(u)[2 * i] == #[trigger] u[i] % 256
            && le_units(u)[2 * i + 1] == u[i] / 256 by {
            if i < u.len() - 1 {
                assert(u.drop_last()[i] == u[i]);
            }
        }
    }
}

/// Reading units back from their little-endian bytes gives the units.
pub proof fn lemma_units_of_le(u: Seq<u16>)
    ensures
        units_of_le(le_units(u)) == u,
{
    lemma_le_units(u);
    assert forall|i: int| 0 <= i < u.len() implies #[trigger] units_of_le(le_units(u))[i] == u[i] by {
        assert(le_units(u)[2 * i] == u[i] % 256);
        assert(le_units(u)[2 * i + 1] == u[i] / 256);
    }
    assert(units_of_le(le_units(u)) =~= u);
}

/// No unit of a UTF-16 encoding is zero unless the text holds a NUL, and
/// non-empty text encodes to at least one unit.
proof fn lemma_utf16_no_zero(s: Seq<char>)
    requires
        forall|i: int| 0 <= i < s.len() ==> (#[trigger] s[i] as u32) != 0,
    ensures
        forall|j: int| 0 <= j < utf16_of(s).len() ==> #[trigger] utf16_of(s)[j] != 0,
        utf16_of(s).len() >= s.len(),
    decreases s.len(),
{
    if s.len() > 0 {
        let p = s.drop_last();
        assert forall|i: int| 0 <= i < p.len() implies (#[trigger] p[i] as u32) != 0 by {
            assert(p[i] == s[i]);
        }
        lemma_utf16_no_zero(p);
        let c = s.last();
        assert((c as u32) != 0);
        let t = utf16_of_char(c);
        let u = c as u32;
        vstd::utf8::char_is_scalar(c);
        assert(u <= 0x10FFFF);
        if u < 0x10000 {
            assert(t[0] == u as u16);
            assert(t[0] != 0);
        } else {
            let v = u - 0x10000;
            assert(v / 1024 < 1024);
            assert(t[0] == (0xD800 + v / 1024) as u16);
            assert(t[0] != 0);
            assert(t[1] == (0xDC00 + v % 1024) as u16);
            assert(t[1] != 0);
        }
        assert forall|j: int| 0 <= j < t.len() implies #[trigger] t[j] != 0 by {}
        let w = utf16_of(s);
        assert(w == utf16_of(p) + t);
        assert forall|j: int| 0 <= j < w.len() implies #[trigger] w[j] != 0 by {
            if j < utf16_of(p).len() {
                assert(w[j] == utf16_of(p)[j]);
            } else {
                assert(w[j] == t[j - utf16_of(p).len()]);
            }
        }
    }
}

/// A name free of NULs followed by a NUL is read whole, and the reading
/// starts afresh after it.
proof fn lemma_names_from_name(w: Seq<u16>, rest: Seq<u16>, cur: Seq<u16>)
    requires
        forall|j: int| 0 <= j < w.len() ==> #[trigger] w[j] != 0,
        cur.len() + w.len() > 0,
    ensures
        names_from(w + seq![0u16] + rest, cur) == seq![cur + w] + names_from(rest, seq![]),
    decreases w.len(),
{
    let x = w + seq![0u16] + rest;
    if w.len() == 0 {
        assert(x[0] == 0);
        assert(x.drop_first() =~= rest);
        assert(cur + w =~= cur);
    } else {
        assert(x[0] == w[0]);
        assert(x.drop_first() =~= w.drop_first() + seq![0u16] + rest);
        assert forall|j: int| 0 <= j < w.drop_first().len() implies #[trigger] w.drop_first()[j]
            != 0 by {
            assert(w.drop_first()[j] == w[j + 1]);
        }
        lemma_names_from_name(w.drop_first(), rest, cur.push(w[0]));
        assert(cur.push(w[0]) + w.drop_first() =~= cur + w);
    }
}

/// Paths that are non-empty and hold no NUL.
pub open spec fn listable_paths(paths: Seq<Seq<char>>) -> bool {
    &&& forall|i: int| 0 <= i < paths.len() ==> #[trigger] paths[i].len() > 0
    &&& forall|i: int, j: int|
        0 <= i < paths.len() && 0 <= j < paths[i].len() ==> (#[trigger] paths[i][j] as u32) != 0
}

proof fn lemma_names_of_file_list(paths: Seq<Seq<char>>)
    requires
        listable_paths(paths),
    ensures
        names_from(hdrop_file_list(paths), seq![]) == paths.map_values(|p: Seq<char>| utf16_of(p)),
    decreases paths.len(),
{
    if paths.len() == 0 {
        assert(hdrop_file_list(paths) == seq![0u16]);
        assert(seq![0u16].drop_first().len() == 0);
        assert(paths.map_values(|p: Seq<char>| utf16_of(p)) =~= Seq::<Seq<u16>>::empty());
    } else {
        let p0 = paths[0];
        let tail = paths.drop_first();
        assert forall|i: int, j: int| 0 <= i < tail.len() && 0 <= j < tail[i].len() implies (#[trigger] tail[i][j] as u32) != 0 by {
            assert(tail[i] == paths[i + 1]);
        }
        assert forall|i: int| 0 <= i < tail.len() implies #[trigger] tail[i].len() > 0 by {
            assert(tail[i] == paths[i + 1]);
        }
        lemma_names_of_file_list(tail);
        assert forall|j: int| 0 <= j < p0.len() implies (#[trigger] p0[j] as u32) != 0 by {
            assert((paths[0][j] as u32) != 0);
        }
        assert(p0.len() > 0);
        lemma_utf16_no_zero(p0);
        lemma_names_from_name(utf16_of(p0), hdrop_file_list(tail), seq![]);
        assert(Seq::<u16>::empty() + utf16_of(p0) =~= utf16_of(p0));
        assert(paths.map_values(|p: Seq<char>| utf16_of(p)) =~= seq![utf16_of(p0)] + tail.map_values(
            |p: Seq<char>| utf16_of(p),
        ));
    }
}

/// Reading the file list of a `CF_HDROP` block that this library built for
/// some paths gives back exactly those paths' UTF-16 encodings, provided no
/// path is empty and none holds a NUL (either would end the list early).
pub proof fn law_hdrop_round_trip(paths: Seq<Seq<char>>)
    requires
        listable_paths(paths),
    ensures
        hdrop_block_names(dropfiles_header() + le_units(hdrop_file_list(paths))) == paths.map_values(
            |p: Seq<char>| utf16_of(p),
        ),
{
    let list = le_units(hdrop_file_list(paths));
    let b = dropfiles_header() + list;
    assert(dropfiles_header().len() == 20);
    assert(b[0] == 20u8 && b[1] == 0u8 && b[2] == 0u8 && b[3] == 0u8);
    assert(file_list_offset(b) == 20);
    lemma_le_units(hdrop_file_list(paths));
    assert(b.skip(20) =~= list);
    lemma_units_of_le(hdrop_file_list(paths));
    lemma_names_of_file_list(paths);
}

/// The little-endian `u32` at byte `i` of `b`.
pub open spec fn u32_at(b: Seq<u8>, i: int) -> int {
    b[i] + 256 * b[i + 1] + 65536 * b[i + 2] + 16777216 * b[i + 3]
}

/// The file names of the `FILE_NOTIFY_INFORMATION` records of `b` from byte
/// `off` on. A record holds the offset of the next record (0 for the
/// last), the action, the name's length in bytes and the name in UTF-16;
/// a record that does not fit in `b` ends the list, and so does a next
/// offset that leads past the end.
pub open spec fn notify_names_from(b: Seq<u8>, off: int) -> Seq<Seq<u16>>
    decreases b.len() - off,
{
    if off < 0 || off + 12 > b.len() || off + 12 + u32_at(b, off + 8) > b.len() {
        seq![]
    } else {
        let name = units_of_le(b.subrange(off + 12, off + 12 + u32_at(b, off + 8)));
        let next = u32_at(b, off);
        if next == 0 || off + next >= b.len() {
            seq![name]
        } else {
            seq![name] + notify_names_from(b, off + next)
        }
    }
}

fn read_u32(b: &[u8], i: usize) -> (r: u64)
    requires
        i + 4 <= b@.len(),
    ensures
        r == u32_at(b@, i as int),
{
    b[i] as u64 + 256 * (b[i + 1] as u64) + 65536 * (b[i + 2] as u64) + 16777216 * (b[i + 3] as u64)
}

/// The file names reported in a buffer of `FILE_NOTIFY_INFORMATION`
/// records, as `ReadDirectoryChangesW` fills it, decoded from UTF-16.
pub fn notify_file_names(records: &[u8]) -> (r: Vec<String>)
    ensures
        r@.len() == notify_names_from(records@, 0).len(),
        forall|i: int|
            0 <= i < r@.len() ==> #[trigger] r@[i]@ == utf16_lossy(notify_names_from(records@, 0)[i]),
{
    let len = records.len();
    let mut out: Vec<String> = Vec::new();
    let ghost mut done: Seq<Seq<u16>> = seq![];
    let mut off: usize = 0;
    loop
        invariant_except_break
            notify_names_from(records@, 0) == done + notify_names_from(records@, off as int),
        invariant
            len == records@.len(),
            off <= len,
            out@.len() == done.len(),
            forall|i: int| 0 <= i < out@.len() ==> #[trigger] out@[i]@ == utf16_lossy(done[i]),
        ensures
            notify_names_from(records@, 0) == done,
        decreases len - off,
    {
        if len - off < 12 {
            assert(done + seq![] =~= done);
            break;
        }
        let name_bytes = read_u32(records, off + 8);
        if name_bytes > (len - off - 12) as u64 {
            assert(done + seq![] =~= done);
            break;
        }
        let start = off + 12;
        let end = start + name_bytes as usize;
        let ghost name = units_of_le(records@.subrange(start as int, end as int));
        let mut units: Vec<u16> = Vec::new();
        let mut k: usize = start;
        while end - k >= 2
            invariant
                start <= k <= end,
                end <= records@.len(),
                (k - start) % 2 == 0,
                units@ == name.take((k - start) / 2),
                name == units_of_le(records@.subrange(start as int, end as int)),
            decreases end - k,
        {
            let unit: u16 = (records[k] as u16) + 256 * (records[k + 1] as u16);
            assert(unit == name[(k - start) / 2]);
            units.push(unit);
            assert(units@ =~= name.take((k + 2 - start) / 2));
            k = k + 2;
        }
        assert(units@ =~= name);
        let decoded = from_utf16_lossy(units.as_slice());
        let next = read_u32(records, off);
        proof {
            done = done.push(name);
        }
        out.push(decoded);
        if next == 0 || next >= (len - off) as u64 {
            assert(done =~= done.drop_last() + seq![name]);
            break;
        }
        assert(done.drop_last() + (seq![name] + notify_names_from(records@, off + next)) =~= done
            + notify_names_from(records@, off + next));
        off = off + next as usize;
    }
    out
}

} // verus!
