use vstd::prelude::*;
use std::time::{Duration, SystemTime};

verus! {

pub open spec fn is_decimal(c: char) -> bool {
    '0' <= c <= '9'
}

pub open spec fn is_lower_hex(c: char) -> bool {
    ('0' <= c <= '9') || ('a' <= c <= 'f')
}

/// Whether `s` is a version 4 id in hyphenated form: 32 lowercase hexadecimal digits in groups
/// of 8, 4, 4, 4 and 12, joined by hyphens, with the version digit `4` opening the third group
/// and one of `8`, `9`, `a`, `b` opening the fourth.
pub open spec fn uuid_form(s: Seq<char>) -> bool {
    &&& s.len() == 36
    &&& forall|i: int|
        0 <= i < 36 ==> if i == 8 || i == 13 || i == 18 || i == 23 {
            s[i] == '-'
        } else {
            is_lower_hex(#[trigger] s[i])
        }
    &&& s[14] == '4'
    &&& (s[19] == '8' || s[19] == '9' || s[19] == 'a' || s[19] == 'b')
}

/// Whether `s[from..to]` are decimal digits.
pub open spec fn digits_at(s: Seq<char>, from: int, to: int) -> bool {
    forall|i: int| from <= i < to ==> is_decimal(#[trigger] s[i])
}

/// Whether `s` is an ISO-8601 / RFC 3339 UTC time as `YYYY-MM-DDTHH:MM:SS`, then no fraction
/// or a fraction of 3, 6 or 9 digits, then `+00:00`.
pub open spec fn rfc3339_utc(s: Seq<char>) -> bool {
    let frac = s.len() - 25;
    &&& s.len() >= 25
    &&& digits_at(s, 0, 4)
    &&& s[4] == '-'
    &&& digits_at(s, 5, 7)
    &&& s[7] == '-'
    &&& digits_at(s, 8, 10)
    &&& s[10] == 'T'
    &&& digits_at(s, 11, 13)
    &&& s[13] == ':'
    &&& digits_at(s, 14, 16)
    &&& s[16] == ':'
    &&& digits_at(s, 17, 19)
    &&& (frac == 0 || ((frac == 4 || frac == 7 || frac == 10) && s[19] == '.' && digits_at(s, 20, 19 + frac)))
    &&& s.subrange(s.len() - 6, s.len() as int) == seq!['+', '0', '0', ':', '0', '0']
}

/// The first second of the year 10000: chrono writes every earlier UTC time with a four-digit
/// year.
pub const YEAR_10000_SECS: u64 = 253402300800;

/// std's `SystemTime`, a reading of the wall clock, carried through as it is.
#[verifier::external_type_specification]
#[verifier::external_body]
pub struct ExSystemTime(SystemTime);

/// Relies on getrandom::fill: sixteen bytes from the operating system's random source, or
/// nothing when that source fails.
#[verifier::external_body]
fn random_bytes() -> Option<[u8; 16]> {
    let mut bytes = [0u8; 16];
    getrandom::fill(&mut bytes).ok().map(|_| bytes)
}

/// Relies on uuid::Builder::from_random_bytes, which sets the version and variant bits, and on
/// the hyphenated lowercase text that a `Uuid` displays as.
#[verifier::external_body]
fn uuid_text(bytes: [u8; 16]) -> (r: String)
    ensures
        uuid_form(r@),
{
    uuid::Builder::from_random_bytes(bytes).into_uuid().to_string()
}

/// Relies on SystemTime::now: the wall clock now.
#[verifier::external_body]
fn system_now() -> SystemTime {
    SystemTime::now()
}

/// Relies on SystemTime::duration_since: the time from the Unix epoch to `t`, or nothing when
/// `t` lies before it.
#[verifier::external_body]
fn since_epoch(t: &SystemTime) -> Option<Duration> {
    t.duration_since(std::time::UNIX_EPOCH).ok()
}

/// Relies on Duration::as_secs: the whole seconds of `d`.
#[verifier::external_body]
fn whole_seconds(d: &Duration) -> u64 {
    d.as_secs()
}

/// Relies on Duration::subsec_nanos: the nanoseconds of `d` past its whole seconds, always
/// below one billion.
#[verifier::external_body]
fn fraction_nanos(d: &Duration) -> (r: u32)
    ensures
        r < 1_000_000_000,
{
    d.subsec_nanos()
}

/// Relies on chrono's DateTime::from_timestamp and DateTime::to_rfc3339, which writes
/// `YYYY-MM-DDTHH:MM:SS`, a fraction of 3, 6 or 9 digits unless it is zero, and the offset
/// `+00:00`: the UTC time `secs` seconds and `nanos` nanoseconds after the Unix epoch. The
/// year has four digits before the year 10000.
#[verifier::external_body]
fn rfc3339_at(secs: u64, nanos: u32) -> (r: Option<String>)
    requires
        secs < YEAR_10000_SECS,
        nanos < 1_000_000_000,
    ensures
        r matches Some(s) ==> rfc3339_utc(s@),
{
    chrono::DateTime::from_timestamp(secs as i64, nanos).map(|t| t.to_rfc3339())
}

/// A fresh random request id in hyphenated form, or nothing when no random bytes can be had.
pub fn new_request_id() -> (r: Option<String>)
    ensures
        r matches Some(s) ==> uuid_form(s@),
{
    match random_bytes() {
        Some(bytes) => Some(uuid_text(bytes)),
        None => None,
    }
}

/// The current UTC time in ISO-8601, or nothing when the clock reads before the Unix epoch or
/// from the year 10000 on.
pub fn now_rfc3339() -> (r: Option<String>)
    ensures
        r matches Some(s) ==> rfc3339_utc(s@),
{
    match since_epoch(&system_now()) {
        Some(d) => {
            let secs = whole_seconds(&d);
            if secs >= YEAR_10000_SECS {
                return None;
            }
            rfc3339_at(secs, fraction_nanos(&d))
        },
        None => None,
    }
}

} // verus!
