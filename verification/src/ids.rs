//! Object-key prefixes, time partitions, and identifiers derived by SHA-256.
use crate::text::{
    append_str, chars_of, hex_lower, is_lower_hex, lemma_hex_lower_shape, push_char, push_hex, push_zero_padded, seq_trim_slashes,
    string_of, trim_bounds, zero_pad,
};
use chrono::{DateTime, Datelike, Timelike, Utc};
use sha2::{Digest, Sha256};
use vstd::prelude::*;
use vstd::utf8::encode_utf8;

verus! {

/// `prefixed_key`: the prefix without its outer `/`, then `/`, then the
/// key; the key alone where nothing of the prefix is left.
pub open spec fn prefixed_key_spec(prefix: Seq<char>, key: Seq<char>) -> Seq<char> {
    let p = seq_trim_slashes(prefix);
    if p.len() == 0 {
        key
    } else {
        p + "/"@ + key
    }
}

/// Joins a prefix and a key into one object key.
pub fn prefixed_key(prefix: &str, key: &str) -> (r: String)
    ensures
        r@ == prefixed_key_spec(prefix@, key@),
{
    let v = chars_of(prefix);
    let (a, b) = trim_bounds(&v, true);
    if a == b {
        key.to_owned()
    } else {
        let mut s = string_of(&v, a, b);
        append_str(&mut s, "/");
        append_str(&mut s, key);
        s
    }
}

/// The proleptic Gregorian date `(year, month, day)` of a day counted from
/// 1970-01-01 (day 0), years numbered astronomically (year 0 is 1 BC).
pub open spec fn civil_from_days(days: int) -> (int, int, int) {
    let z = days + 719468;
    let era = z / 146097;
    let doe = z - era * 146097;
    let yoe = (doe - doe / 1460 + doe / 36524 - doe / 146096) / 365;
    let doy = doe - (365 * yoe + yoe / 4 - yoe / 100);
    let mp = (5 * doy + 2) / 153;
    let d = doy - (153 * mp + 2) / 5 + 1;
    let m = if mp < 10 { mp + 3 } else { mp - 9 };
    (yoe + era * 400 + if m <= 2 { 1int } else { 0int }, m, d)
}

/// The day, counted from 1970-01-01, that a time in milliseconds since the
/// Unix epoch falls in.
pub open spec fn day_of_millis(ms: i64) -> int {
    ms as int / 1000 / 86400
}

/// The years that `chrono`'s dates hold: from `NaiveDate::MIN`
/// (-262143-01-01) to `NaiveDate::MAX` (262142-12-31).
pub open spec fn in_chrono_years(y: int) -> bool {
    -262143 <= y <= 262142
}

/// The calendar date and hour in UTC of a time in milliseconds since the
/// Unix epoch, `(year, month, day, hour)`: the Gregorian date of the day the
/// time falls in and the hour of that day; nothing where the year lies
/// outside the years `chrono` holds.
pub open spec fn utc_civil(ms: i64) -> Option<(i32, u32, u32, u32)> {
    let (y, m, d) = civil_from_days(day_of_millis(ms));
    if in_chrono_years(y) {
        Some((y as i32, m as u32, d as u32, ((ms as int / 1000) % 86400 / 3600) as u32))
    } else {
        None
    }
}

/// Calls `chrono::DateTime::<Utc>::from_timestamp_millis` and reads the
/// year, month, day and hour of the result. The contract claims that the
/// result is `utc_civil(ms)`: chrono takes the whole seconds and the day by
/// Euclidean division and the second of the day by Euclidean remainder,
/// counts days in the proleptic Gregorian calendar, and answers `None`
/// exactly where the year falls outside `NaiveDate::MIN..=NaiveDate::MAX`.
#[verifier::external_body]
fn utc_civil_from_millis(ms: i64) -> (r: Option<(i32, u32, u32, u32)>)
    ensures
        r == utc_civil(ms),
{
    match DateTime::<Utc>::from_timestamp_millis(ms) {
        Some(d) => Some((d.year(), d.month(), d.day(), d.hour())),
        None => None,
    }
}

/// `{:04}-{:02}-{:02}` of a date.
pub open spec fn civil_date(y: int, m: int, d: int) -> Seq<char> {
    zero_pad(y, 4) + "-"@ + zero_pad(m, 2) + "-"@ + zero_pad(d, 2)
}

/// The date of a partition: the UTC date of the time, or the epoch's date
/// where the time is out of range.
pub open spec fn partition_date(ms: i64) -> Seq<char> {
    match utc_civil(ms) {
        Some(t) => civil_date(t.0 as int, t.1 as int, t.2 as int),
        None => civil_date(1970, 1, 1),
    }
}

/// The hour of a partition: the UTC hour of the time, or 0 where the time is
/// out of range.
pub open spec fn partition_hour(ms: i64) -> u32 {
    match utc_civil(ms) {
        Some(t) => t.3,
        None => 0,
    }
}

/// The date and hour under which a run's objects are stored.
pub struct Partition {
    pub date: String,
    pub hour: u32,
}

fn date_text(y: i64, m: i64, d: i64) -> (s: String)
    ensures
        s@ == civil_date(y as int, m as int, d as int),
{
    let mut s = String::new();
    push_zero_padded(&mut s, y, 4);
    append_str(&mut s, "-");
    push_zero_padded(&mut s, m, 2);
    append_str(&mut s, "-");
    push_zero_padded(&mut s, d, 2);
    proof {
        assert(s@ =~= civil_date(y as int, m as int, d as int));
    }
    s
}

/// The partition of a time in milliseconds since the Unix epoch.
pub fn partition(timestamp_ms: i64) -> (p: Partition)
    ensures
        p.date@ == partition_date(timestamp_ms),
        p.hour == partition_hour(timestamp_ms),
        p.hour < 24,
{
    match utc_civil_from_millis(timestamp_ms) {
        Some((y, m, d, h)) => Partition { date: date_text(y as i64, m as i64, d as i64), hour: h },
        None => Partition { date: date_text(1970, 1, 1), hour: 0 },
    }
}

/// The SHA-256 digest of a byte string, as the `sha2` crate computes it.
pub uninterp spec fn sha256(data: Seq<u8>) -> Seq<u8>;

/// Calls `sha2::Sha256::digest`. The contract claims that the digest is
/// `sha256(data)` and has 32 bytes (the output size of SHA-256).
#[verifier::external_body]
fn sha256_digest(data: &[u8]) -> (d: Vec<u8>)
    ensures
        d@ == sha256(data@),
        d@.len() == 32,
{
    Sha256::digest(data).to_vec()
}

/// The bytes hashed for an identifier: each part's UTF-8 bytes followed by
/// a zero byte.
pub open spec fn id_bytes(parts: Seq<Seq<char>>) -> Seq<u8>
    decreases parts.len(),
{
    if parts.len() == 0 {
        Seq::empty()
    } else {
        id_bytes(parts.drop_last()) + encode_utf8(parts[parts.len() - 1]) + seq![0u8]
    }
}

/// `stable_id`: the prefix, `_`, and the first 24 hexadecimal digits of the
/// SHA-256 digest of the parts.
pub open spec fn stable_id_spec(prefix: Seq<char>, parts: Seq<Seq<char>>) -> Seq<char> {
    prefix + seq!['_'] + hex_lower(sha256(id_bytes(parts)).take(12))
}

/// `{:x}` of the SHA-256 digest of a byte string: 64 hexadecimal digits.
pub open spec fn sha256_hex(data: Seq<u8>) -> Seq<char> {
    hex_lower(sha256(data))
}

fn push_bytes(out: &mut Vec<u8>, b: &[u8])
    ensures
        final(out)@ == old(out)@ + b@,
{
    let mut i: usize = 0;
    while i < b.len()
        invariant
            i <= b@.len(),
            out@ == old(out)@ + b@.take(i as int),
        decreases b@.len() - i,
    {
        out.push(b[i]);
        i = i + 1;
        assert(b@.take(i as int) =~= b@.take(i - 1).push(b@[i - 1]));
    }
    assert(b@.take(b@.len() as int) =~= b@);
}

/// An identifier that depends on the parts alone: equal parts give equal
/// identifiers.
pub fn stable_id(prefix: &str, parts: &Vec<String>) -> (id: String)
    ensures
        id@ == stable_id_spec(prefix@, parts@.map_values(|s: String| s@)),
        id@.len() == prefix@.len() + 25,
        id@[prefix@.len() as int] == '_',
        forall|k: int| prefix@.len() < k < id@.len() ==> is_lower_hex(#[trigger] id@[k]),
{
    let ghost ps = parts@.map_values(|s: String| s@);
    let mut bytes: Vec<u8> = Vec::new();
    let mut i: usize = 0;
    while i < parts.len()
        invariant
            i <= parts@.len(),
            ps == parts@.map_values(|s: String| s@),
            bytes@ == id_bytes(ps.take(i as int)),
        decreases parts@.len() - i,
    {
        let b = parts[i].as_str().as_bytes();
        push_bytes(&mut bytes, b);
        bytes.push(0u8);
        proof {
            assert(ps.take(i + 1).drop_last() =~= ps.take(i as int));
            assert(ps[i as int] == parts@[i as int]@);
        }
        i = i + 1;
    }
    assert(ps.take(parts@.len() as int) =~= ps);
    let digest = sha256_digest(bytes.as_slice());
    let mut id = prefix.to_owned();
    push_char(&mut id, '_');
    push_hex(&mut id, digest.as_slice(), 12);
    proof {
        assert(id@ =~= stable_id_spec(prefix@, ps));
        let h = hex_lower(digest@.take(12));
        lemma_hex_lower_shape(digest@.take(12));
        assert forall|k: int| prefix@.len() < k < id@.len() implies is_lower_hex(#[trigger] id@[k]) by {
            assert(id@[k] == h[k - prefix@.len() - 1]);
        }
    }
    id
}

/// `{:x}` of the SHA-256 digest of `data`.
pub fn sha256_hex_of(data: &[u8]) -> (h: String)
    ensures
        h@ == sha256_hex(data@),
        h@.len() == 64,
        forall|k: int| 0 <= k < h@.len() ==> is_lower_hex(#[trigger] h@[k]),
{
    let digest = sha256_digest(data);
    let mut h = String::new();
    push_hex(&mut h, digest.as_slice(), 32);
    assert(digest@.take(32) =~= digest@);
    assert(h@ =~= sha256_hex(data@));
    proof {
        lemma_hex_lower_shape(digest@);
    }
    h
}

/// The system clock's time, as `std::time::SystemTime` holds it.
#[verifier::external_type_specification]
#[verifier::external_body]
pub struct ExSystemTime(std::time::SystemTime);

/// Calls `std::time::SystemTime::now`. Nothing is claimed of the result: it
/// is what the clock reads.
#[verifier::external_body]
fn system_time_now() -> (t: std::time::SystemTime) {
    std::time::SystemTime::now()
}

/// Calls `SystemTime::duration_since` with the Unix epoch and reads the
/// whole milliseconds of the duration (`Duration::as_millis`); `None` where
/// `t` is earlier than the epoch. Nothing is claimed of the value: it
/// depends on what the clock read, which the contract cannot see.
#[verifier::external_body]
fn millis_since_epoch(t: &std::time::SystemTime) -> (ms: Option<u128>) {
    match t.duration_since(std::time::UNIX_EPOCH) {
        Ok(d) => Some(d.as_millis()),
        Err(_) => None,
    }
}

/// A clock reading in whole milliseconds since the Unix epoch as a run's
/// time: the reading where an `i64` holds it, nothing where it does not or
/// where there is no reading.
pub open spec fn time_of_millis(ms: Option<u128>) -> Option<i64> {
    match ms {
        Some(x) => if x <= i64::MAX {
            Some(x as i64)
        } else {
            None
        },
        None => None,
    }
}

/// Turns a clock reading in milliseconds into a run's time.
pub fn millis_to_time(ms: Option<u128>) -> (t: Option<i64>)
    ensures
        t == time_of_millis(ms),
{
    match ms {
        Some(x) => {
            if x <= 9_223_372_036_854_775_807u128 {
                Some(x as i64)
            } else {
                None
            }
        },
        None => None,
    }
}

/// The clock's time in milliseconds since the Unix epoch
/// (`millis_to_time` of what the clock reads); nothing where the clock
/// reads earlier than the epoch, or later than an `i64` of milliseconds can
/// hold.
pub(crate) fn now_ms() -> (t: Option<i64>)
    ensures
        t matches Some(m) ==> m >= 0,
{
    let now = system_time_now();
    millis_to_time(millis_since_epoch(&now))
}

} // verus!
