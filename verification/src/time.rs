use vstd::prelude::*;
use crate::decimal::{digit_char, digit_to_char};

verus! {

/// Largest millisecond count (since the Unix epoch) this library converts to
/// a civil date: the last millisecond of the year 9999.
pub const MAX_UTC_MILLIS: u64 = 253402300799999;

/// A civil UTC date-time with second precision, held as plain fields.
#[derive(Clone, Copy, PartialEq, Eq, Structural, Debug)]
pub struct UtcTime {
    pub year: u16,
    pub month: u8,
    pub day: u8,
    pub hour: u8,
    pub minute: u8,
    pub second: u8,
}

/// The civil UTC date-time named by a count of milliseconds since the Unix
/// epoch, as `(year, month, day, hour, minute, second)`.
pub uninterp spec fn civil_of(ms: int) -> (u16, u8, u8, u8, u8, u8);

/// Relies on chrono's `TimeZone::timestamp_millis_opt` for `Utc` and on its
/// `Datelike`/`Timelike` accessors: the civil UTC date-time is a function of
/// the millisecond count alone; for non-negative counts up to the year 9999
/// the conversion succeeds, the year is four digits and the other fields are
/// in their calendar ranges.
#[verifier::external_body]
fn civil_from_millis(ms: u64) -> (r: (u16, u8, u8, u8, u8, u8))
    requires
        ms <= MAX_UTC_MILLIS,
    ensures
        r == civil_of(ms as int),
        1970 <= r.0 <= 9999,
        1 <= r.1 <= 12,
        1 <= r.2 <= 31,
        r.3 < 24,
        r.4 < 60,
        r.5 < 60,
{
    let dt = chrono::TimeZone::timestamp_millis_opt(&chrono::Utc, ms as i64).unwrap();
    (
        chrono::Datelike::year(&dt) as u16,
        chrono::Datelike::month(&dt) as u8,
        chrono::Datelike::day(&dt) as u8,
        chrono::Timelike::hour(&dt) as u8,
        chrono::Timelike::minute(&dt) as u8,
        chrono::Timelike::second(&dt) as u8,
    )
}

/// The `UtcTime` with the fields of `civil_of(ms)`.
pub open spec fn civil_time(ms: int) -> UtcTime {
    let c = civil_of(ms);
    UtcTime { year: c.0, month: c.1, day: c.2, hour: c.3, minute: c.4, second: c.5 }
}

/// Converts a millisecond count since the Unix epoch to a civil UTC
/// date-time.
pub fn utc_from_millis(ms: u64) -> (r: UtcTime)
    requires
        ms <= MAX_UTC_MILLIS,
    ensures
        r == civil_time(ms as int),
        1970 <= r.year <= 9999,
        1 <= r.month <= 12,
        1 <= r.day <= 31,
        r.hour < 24,
        r.minute < 60,
        r.second < 60,
{
    let c = civil_from_millis(ms);
    UtcTime { year: c.0, month: c.1, day: c.2, hour: c.3, minute: c.4, second: c.5 }
}

/// The last two decimal digits of `n`, zero-padded.
pub open spec fn two_digits(n: int) -> Seq<char> {
    seq![digit_char((n / 10) % 10), digit_char(n % 10)]
}

/// The last four decimal digits of `n`, zero-padded.
pub open spec fn four_digits(n: int) -> Seq<char> {
    seq![
        digit_char((n / 1000) % 10),
        digit_char((n / 100) % 10),
        digit_char((n / 10) % 10),
        digit_char(n % 10),
    ]
}

/// The wire form of a UTC date-time: `YYYYMMDDTHHMMSSZ`.
pub open spec fn datetime_text(t: UtcTime) -> Seq<char> {
    four_digits(t.year as int) + two_digits(t.month as int) + two_digits(t.day as int) + seq!['T']
        + two_digits(t.hour as int) + two_digits(t.minute as int) + two_digits(t.second as int)
        + seq!['Z']
}

fn push_two_digits(out: &mut Vec<char>, n: u8)
    ensures
        final(out)@ == old(out)@ + two_digits(n as int),
{
    out.push(digit_to_char((n as u64 / 10) % 10));
    out.push(digit_to_char(n as u64 % 10));
    proof {
        assert(out@ =~= old(out)@ + two_digits(n as int));
    }
}

/// Formats a date-time as `YYYYMMDDTHHMMSSZ`, always UTC, second precision.
pub fn format_datetime(t: &UtcTime) -> (r: String)
    ensures
        r@ == datetime_text(*t),
{
    let mut out: Vec<char> = Vec::new();
    let y = t.year as u64;
    out.push(digit_to_char((y / 1000) % 10));
    out.push(digit_to_char((y / 100) % 10));
    out.push(digit_to_char((y / 10) % 10));
    out.push(digit_to_char(y % 10));
    push_two_digits(&mut out, t.month);
    push_two_digits(&mut out, t.day);
    out.push('T');
    push_two_digits(&mut out, t.hour);
    push_two_digits(&mut out, t.minute);
    push_two_digits(&mut out, t.second);
    out.push('Z');
    proof {
        assert(out@ =~= datetime_text(*t));
    }
    crate::chars::chars_to_string(&out)
}

} // verus!
