//! Timestamps for capture file names and log lines, and the log size limit.

use vstd::prelude::*;
use crate::civil::{civil_from_days, days_from_civil, days_to_ymd, is_valid_date};
use crate::text::{digits_value, lemma_pad_decimal_value, pad_decimal, push_char, push_str, push_padded_decimal, pow10, lemma_pad_decimal_len};

verus! {

/// Offset of the fixed fallback time zone (UTC+8) in seconds.
pub const LOCAL_OFFSET_SECS: u64 = 28800;

/// Seconds since the epoch shifted into the local zone, wrapping as a `u64`.
pub open spec fn local_secs(secs: u64) -> u64 {
    secs.wrapping_add(LOCAL_OFFSET_SECS)
}

/// Broken-down local time (year, month, day, hour, minute, second) of a Unix
/// time in seconds.
pub open spec fn spec_local_time(secs: u64) -> (u32, u32, u32, u32, u32, u32) {
    let ls = local_secs(secs);
    let days = ls / 86400;
    let tod = ls % 86400;
    let (y, mo, d) = civil_from_days(days as int);
    (y as u32, mo as u32, d as u32, (tod / 3600) as u32, ((tod % 3600) / 60) as u32, (tod % 60) as u32)
}

/// `YYYYMMDD_HHmmSSmmm` with each field zero-padded to its minimum width.
pub open spec fn spec_stamp(t: (u32, u32, u32, u32, u32, u32), millis: u32) -> Seq<char> {
    pad_decimal(t.0 as nat, 4) + pad_decimal(t.1 as nat, 2) + pad_decimal(t.2 as nat, 2) + seq!['_']
        + pad_decimal(t.3 as nat, 2) + pad_decimal(t.4 as nat, 2) + pad_decimal(t.5 as nat, 2)
        + pad_decimal(millis as nat, 3)
}

/// The file-name timestamp of a Unix time given as seconds and milliseconds.
pub open spec fn spec_file_timestamp(secs: u64, millis: u32) -> Seq<char> {
    spec_stamp(spec_local_time(secs), millis)
}

/// `YYYY-MM-DD HH:MM:SS` with each field zero-padded to its minimum width.
pub open spec fn spec_log_timestamp(t: (u32, u32, u32, u32, u32, u32)) -> Seq<char> {
    pad_decimal(t.0 as nat, 4) + seq!['-'] + pad_decimal(t.1 as nat, 2) + seq!['-']
        + pad_decimal(t.2 as nat, 2) + seq![' '] + pad_decimal(t.3 as nat, 2) + seq![':']
        + pad_decimal(t.4 as nat, 2) + seq![':'] + pad_decimal(t.5 as nat, 2)
}

/// Reads the system clock as seconds and milliseconds since the Unix epoch
/// (std `SystemTime::now` and `duration_since(UNIX_EPOCH)`); a clock set
/// before the epoch reads as zero.
///
/// Trusted: only that the millisecond part is below 1000, as the
/// documentation of `Duration::subsec_millis` says. The time itself is
/// whatever the clock says.
#[verifier::external_body]
fn unix_time_now() -> (r: (u64, u32))
    ensures
        r.1 < 1000,
{
    match std::time::SystemTime::now().duration_since(std::time::UNIX_EPOCH) {
        Ok(d) => (d.as_secs(), d.subsec_millis()),
        Err(_) => (0, 0),
    }
}

/// Broken-down local time of a Unix time, in the fixed UTC+8 zone.
pub fn local_time_from_unix(secs: u64) -> (r: (u32, u32, u32, u32, u32, u32))
    ensures
        r == spec_local_time(secs),
{
    let ls = secs.wrapping_add(LOCAL_OFFSET_SECS);
    let days = ls / 86400;
    let tod = ls % 86400;
    let (y, mo, d) = days_to_ymd(days as i64);
    (y, mo, d, (tod / 3600) as u32, ((tod % 3600) / 60) as u32, (tod % 60) as u32)
}

/// The current local time, broken down.
pub fn local_time() -> (r: (u32, u32, u32, u32, u32, u32))
    ensures
        exists|secs: u64| r == spec_local_time(secs),
{
    let (secs, _millis) = unix_time_now();
    local_time_from_unix(secs)
}

/// Formats a broken-down time and milliseconds as `YYYYMMDD_HHmmSSmmm`.
pub fn format_file_stamp(t: (u32, u32, u32, u32, u32, u32), millis: u32) -> (r: String)
    ensures
        r@ == spec_stamp(t, millis),
{
    let mut s = String::new();
    push_padded_decimal(&mut s, t.0 as u64, 4);
    push_padded_decimal(&mut s, t.1 as u64, 2);
    push_padded_decimal(&mut s, t.2 as u64, 2);
    push_char(&mut s, '_');
    push_padded_decimal(&mut s, t.3 as u64, 2);
    push_padded_decimal(&mut s, t.4 as u64, 2);
    push_padded_decimal(&mut s, t.5 as u64, 2);
    push_padded_decimal(&mut s, millis as u64, 3);
    assert(s@ =~= spec_stamp(t, millis));
    s
}

/// Formats a Unix time (seconds and milliseconds) as `YYYYMMDD_HHmmSSmmm`.
pub fn format_timestamp_from_secs_millis(secs: u64, millis: u32) -> (r: String)
    ensures
        r@ == spec_file_timestamp(secs, millis),
{
    format_file_stamp(local_time_from_unix(secs), millis)
}

/// The current local time as a file-name timestamp `YYYYMMDD_HHmmSSmmm`.
pub fn filename_timestamp() -> (r: String)
    ensures
        exists|secs: u64, millis: u32| millis < 1000 && r@ == spec_file_timestamp(secs, millis),
{
    let (secs, millis) = unix_time_now();
    format_timestamp_from_secs_millis(secs, millis)
}

/// Formats a broken-down time as `YYYY-MM-DD HH:MM:SS`.
pub fn format_log_timestamp(t: (u32, u32, u32, u32, u32, u32)) -> (r: String)
    ensures
        r@ == spec_log_timestamp(t),
{
    let mut s = String::new();
    push_padded_decimal(&mut s, t.0 as u64, 4);
    push_char(&mut s, '-');
    push_padded_decimal(&mut s, t.1 as u64, 2);
    push_char(&mut s, '-');
    push_padded_decimal(&mut s, t.2 as u64, 2);
    push_char(&mut s, ' ');
    push_padded_decimal(&mut s, t.3 as u64, 2);
    push_char(&mut s, ':');
    push_padded_decimal(&mut s, t.4 as u64, 2);
    push_char(&mut s, ':');
    push_padded_decimal(&mut s, t.5 as u64, 2);
    assert(s@ =~= spec_log_timestamp(t));
    s
}

/// The current local time as `YYYY-MM-DD HH:MM:SS`, for log lines.
pub fn now_timestamp() -> (r: String)
    ensures
        exists|secs: u64| r@ == spec_log_timestamp(spec_local_time(secs)),
{
    format_log_timestamp(local_time())
}

/// While the local year has four digits and the milliseconds three, a file
/// timestamp is exactly 18 characters long (`YYYYMMDD_HHmmSSmmm`).
pub proof fn lemma_file_timestamp_len(secs: u64, millis: u32)
    requires
        1000 <= spec_local_time(secs).0 <= 9999,
        millis < 1000,
    ensures
        spec_file_timestamp(secs, millis).len() == 18,
{
    let t = spec_local_time(secs);
    reveal_with_fuel(pow10, 5);
    lemma_pad_decimal_len(t.0 as nat, 4);
    crate::civil::lemma_civil_round_trip((local_secs(secs) / 86400) as int);
    lemma_pad_decimal_len(t.1 as nat, 2);
    lemma_pad_decimal_len(t.2 as nat, 2);
    lemma_pad_decimal_len(t.3 as nat, 2);
    lemma_pad_decimal_len(t.4 as nat, 2);
    lemma_pad_decimal_len(t.5 as nat, 2);
    lemma_pad_decimal_len(millis as nat, 3);
}

/// The size in bytes above which the log file is rotated: the configured
/// number of megabytes, at least one.
pub fn log_size_limit_bytes(max_log_size_mb: u32) -> (r: u64)
    ensures
        r == (if max_log_size_mb >= 1 { max_log_size_mb as int } else { 1 }) * 1048576,
{
    let mb: u32 = if max_log_size_mb >= 1 { max_log_size_mb } else { 1 };
    mb as u64 * 1024 * 1024
}

/// One log line: `[timestamp LEVEL] message`.
pub fn log_line(timestamp: &str, level: &str, message: &str) -> (r: String)
    ensures
        r@ == seq!['['] + timestamp@ + seq![' '] + level@ + seq![']', ' '] + message@,
{
    let mut s = String::new();
    push_char(&mut s, '[');
    push_str(&mut s, timestamp);
    push_char(&mut s, ' ');
    push_str(&mut s, level);
    push_char(&mut s, ']');
    push_char(&mut s, ' ');
    push_str(&mut s, message);
    assert(s@ =~= seq!['['] + timestamp@ + seq![' '] + level@ + seq![']', ' '] + message@);
    s
}

/// The log file is rotated once it has grown past the limit.
pub fn needs_rotation(log_len: u64, limit_bytes: u64) -> (r: bool)
    ensures
        r == (log_len > limit_bytes),
{
    log_len > limit_bytes
}

/// The broken-down local time is the instant it was taken from: the
/// local clock reads the Unix time plus eight hours (modulo 2^64 seconds),
/// hours, minutes and seconds are in range and add up to the seconds since
/// local midnight, and, while the year fits in a `u32`, the date is a valid
/// calendar date whose day count since 1970-01-01 is the number of whole
/// local days.
pub proof fn law_local_time_reassembles(secs: u64)
    ensures
        local_secs(secs) as int == (secs + 28800) % 0x1_0000_0000_0000_0000,
        spec_local_time(secs).3 < 24,
        spec_local_time(secs).4 < 60,
        spec_local_time(secs).5 < 60,
        spec_local_time(secs).3 * 3600 + spec_local_time(secs).4 * 60 + spec_local_time(secs).5
            == local_secs(secs) % 86400,
        civil_from_days((local_secs(secs) / 86400) as int).0 <= u32::MAX ==> {
            &&& is_valid_date(
                spec_local_time(secs).0 as int,
                spec_local_time(secs).1 as int,
                spec_local_time(secs).2 as int,
            )
            &&& days_from_civil(
                spec_local_time(secs).0 as int,
                spec_local_time(secs).1 as int,
                spec_local_time(secs).2 as int,
            ) == local_secs(secs) / 86400
        },
{
    let ls = local_secs(secs);
    let tod = ls % 86400;
    assert(tod / 3600 < 24);
    assert((tod % 3600) / 60 < 60);
    assert(tod % 60 < 60);
    assert((tod / 3600) * 3600 + ((tod % 3600) / 60) * 60 + tod % 60 == tod);
    let days = (ls / 86400) as int;
    crate::civil::lemma_civil_round_trip(days);
    let c = civil_from_days(days);
    assert(1 <= c.1 <= 12);
    assert(1 <= c.2 <= 31) by {
        assert(crate::civil::days_in_month(c.0, c.1) <= 31);
    }
}

/// A file timestamp reads back as the time it was made from: year in
/// characters 0..4, month 4..6, day 6..8, `_`, hour 9..11, minute 11..13,
/// second 13..15 and milliseconds 15..18, each a decimal number, while
/// every field fits its width.
pub proof fn law_stamp_reads_back(t: (u32, u32, u32, u32, u32, u32), millis: u32)
    requires
        t.0 <= 9999,
        t.1 < 100,
        t.2 < 100,
        t.3 < 100,
        t.4 < 100,
        t.5 < 100,
        millis < 1000,
    ensures
        spec_stamp(t, millis).len() == 18,
        digits_value(spec_stamp(t, millis).subrange(0, 4)) == t.0,
        digits_value(spec_stamp(t, millis).subrange(4, 6)) == t.1,
        digits_value(spec_stamp(t, millis).subrange(6, 8)) == t.2,
        spec_stamp(t, millis)[8] == '_',
        digits_value(spec_stamp(t, millis).subrange(9, 11)) == t.3,
        digits_value(spec_stamp(t, millis).subrange(11, 13)) == t.4,
        digits_value(spec_stamp(t, millis).subrange(13, 15)) == t.5,
        digits_value(spec_stamp(t, millis).subrange(15, 18)) == millis,
{
    reveal_with_fuel(pow10, 5);
    let p0 = pad_decimal(t.0 as nat, 4);
    let p1 = pad_decimal(t.1 as nat, 2);
    let p2 = pad_decimal(t.2 as nat, 2);
    let p3 = pad_decimal(t.3 as nat, 2);
    let p4 = pad_decimal(t.4 as nat, 2);
    let p5 = pad_decimal(t.5 as nat, 2);
    let pm = pad_decimal(millis as nat, 3);
    lemma_pad_decimal_len(t.0 as nat, 4);
    lemma_pad_decimal_len(t.1 as nat, 2);
    lemma_pad_decimal_len(t.2 as nat, 2);
    lemma_pad_decimal_len(t.3 as nat, 2);
    lemma_pad_decimal_len(t.4 as nat, 2);
    lemma_pad_decimal_len(t.5 as nat, 2);
    lemma_pad_decimal_len(millis as nat, 3);
    lemma_pad_decimal_value(t.0 as nat, 4);
    lemma_pad_decimal_value(t.1 as nat, 2);
    lemma_pad_decimal_value(t.2 as nat, 2);
    lemma_pad_decimal_value(t.3 as nat, 2);
    lemma_pad_decimal_value(t.4 as nat, 2);
    lemma_pad_decimal_value(t.5 as nat, 2);
    lemma_pad_decimal_value(millis as nat, 3);
    let st = spec_stamp(t, millis);
    assert(st =~= p0 + p1 + p2 + seq!['_'] + p3 + p4 + p5 + pm);
    assert(st.subrange(0, 4) =~= p0);
    assert(st.subrange(4, 6) =~= p1);
    assert(st.subrange(6, 8) =~= p2);
    assert(st.subrange(9, 11) =~= p3);
    assert(st.subrange(11, 13) =~= p4);
    assert(st.subrange(13, 15) =~= p5);
    assert(st.subrange(15, 18) =~= pm);
}

} // verus!
