use vstd::prelude::*;
use crate::chars::{chars_to_string, str_chars};
use crate::decimal::{
    dec_digits, dec_value, is_digit, lemma_dec_digits_value, parse_u64_chars, parses_to_u64,
    strip_plus, u64_digits,
};
use crate::time::{civil_time, utc_from_millis, UtcTime};

verus! {

/// The custom epoch of the identifier scheme: 2015-01-01T00:00:00Z, in
/// milliseconds since the Unix epoch.
pub const ID_EPOCH_MILLIS: u64 = 1420070400000;

/// A 64-bit distributed identifier: a millisecond timestamp in the high 42
/// bits, then a 5-bit worker id, a 5-bit process id and a 12-bit counter.
#[derive(Clone, Copy, PartialEq, Eq, Structural, Debug)]
pub struct Snowflake(pub u64);

/// The error for a decimal string that is not a valid unsigned 64-bit
/// literal.
#[derive(Clone, Copy, PartialEq, Eq, Structural, Debug)]
pub struct ParseError;

impl Snowflake {
    /// The identifier's creation time in milliseconds since the Unix epoch.
    pub fn timestamp_millis(&self) -> (r: u64)
        ensures
            r == (self.0 >> 22) + ID_EPOCH_MILLIS,
            r <= 5818116911103,
    {
        let v = self.0;
        proof {
            assert(v >> 22 <= 0x3ffffffffffu64) by (bit_vector);
        }
        (v >> 22) + ID_EPOCH_MILLIS
    }

    /// The identifier's creation instant, as a civil UTC date-time.
    pub fn timestamp(&self) -> (r: UtcTime)
        ensures
            r == civil_time((self.0 >> 22) + ID_EPOCH_MILLIS),
    {
        let ms = self.timestamp_millis();
        utc_from_millis(ms)
    }

    /// Bits 17 to 21: the worker (shard) id, 0 to 31.
    pub fn worker_id(&self) -> (r: u8)
        ensures
            r == (self.0 & 0x3E0000) >> 17,
            r <= 31,
    {
        let v = self.0;
        proof {
            assert((v & 0x3E0000) >> 17 <= 31u64) by (bit_vector);
        }
        ((v & 0x3E0000) >> 17) as u8
    }

    /// Bits 12 to 16: the process id, 0 to 31.
    pub fn process_id(&self) -> (r: u8)
        ensures
            r == (self.0 & 0x1F000) >> 12,
            r <= 31,
    {
        let v = self.0;
        proof {
            assert((v & 0x1F000) >> 12 <= 31u64) by (bit_vector);
        }
        ((v & 0x1F000) >> 12) as u8
    }

    /// Bits 0 to 11: the per-process sequence counter, 0 to 4095.
    pub fn counter(&self) -> (r: u16)
        ensures
            r == self.0 & 0xFFF,
            r <= 4095,
    {
        let v = self.0;
        proof {
            assert(v & 0xFFF <= 4095u64) by (bit_vector);
        }
        (v & 0xFFF) as u16
    }

    /// Decodes a decimal identifier string; fails exactly when the string is
    /// not a valid unsigned 64-bit decimal literal.
    pub fn decode(raw: &str) -> (r: Result<Snowflake, ParseError>)
        ensures
            match r {
                Ok(s) => parses_to_u64(raw@) && s.0 == dec_value(strip_plus(raw@)),
                Err(_) => !parses_to_u64(raw@),
            },
    {
        let v = str_chars(raw);
        match parse_u64_chars(&v) {
            Some(n) => Ok(Snowflake(n)),
            None => Err(ParseError),
        }
    }

    /// The identifier as a decimal string.
    pub fn to_decimal_string(&self) -> (r: String)
        ensures
            r@ == dec_digits(self.0 as nat),
    {
        let d = u64_digits(self.0);
        chars_to_string(&d)
    }
}

/// Decimal round trip: the decimal rendering of any 64-bit identifier parses
/// back to exactly the same value, so each field read after the round trip
/// obeys the documented bit layout of the original value.
pub proof fn lemma_decimal_roundtrip(n: u64)
    ensures
        parses_to_u64(dec_digits(n as nat)),
        dec_value(strip_plus(dec_digits(n as nat))) == n,
{
    lemma_dec_digits_value(n as nat);
    let d = dec_digits(n as nat);
    assert(is_digit(d[0]));
    assert(d[0] != '+');
    assert(strip_plus(d) == d);
}

} // verus!
