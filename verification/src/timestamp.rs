//! Timestamp encoding for the store's timestamp columns.
//!
//! A record's timestamp is fixed-width text: its first 19 bytes are a
//! whole-second civil time `YYYY-MM-DDTHH:MM:SS` and bytes 21 to 26 are a
//! 6-digit fractional-second value. It is stored as
//! `epoch_seconds * 1_000_000 + fractional_digits`, an external
//! compatibility contract of the store schema. A value that does not fit the
//! format is stored as "no timestamp" rather than rejected, since the
//! timestamp is descriptive, not a dispatch key.

use crate::scan::is_digit;
use vstd::prelude::*;

verus! {

/// The value of the two digits at `i` and `i + 1`.
pub open spec fn two_digits(s: Seq<u8>, i: int) -> int {
    (s[i] - 48) * 10 + (s[i + 1] - 48)
}

/// The year written in the first four bytes.
pub open spec fn ts_year(s: Seq<u8>) -> int {
    (s[0] - 48) * 1000 + (s[1] - 48) * 100 + (s[2] - 48) * 10 + (s[3] - 48)
}

/// The six fractional-second digits, bytes 20 to 26.
pub open spec fn ts_frac(s: Seq<u8>) -> int {
    (s[20] - 48) * 100000 + (s[21] - 48) * 10000 + (s[22] - 48) * 1000 + (s[23] - 48) * 100 + (
    s[24] - 48) * 10 + (s[25] - 48)
}

/// The bytes have the fixed width and separators of the timestamp format.
pub open spec fn ts_shape_ok(s: Seq<u8>) -> bool {
    s.len() >= 26 && is_digit(s[0]) && is_digit(s[1]) && is_digit(s[2]) && is_digit(s[3]) && s[4]
        == 45 && is_digit(s[5]) && is_digit(s[6]) && s[7] == 45 && is_digit(s[8]) && is_digit(
        s[9],
    ) && s[10] == 84 && is_digit(s[11]) && is_digit(s[12]) && s[13] == 58 && is_digit(s[14])
        && is_digit(s[15]) && s[16] == 58 && is_digit(s[17]) && is_digit(s[18]) && is_digit(s[20])
        && is_digit(s[21]) && is_digit(s[22]) && is_digit(s[23]) && is_digit(s[24]) && is_digit(
        s[25],
    )
}

/// A leap year of the proleptic Gregorian calendar.
pub open spec fn is_leap_year(y: int) -> bool {
    y % 4 == 0 && (y % 100 != 0 || y % 400 == 0)
}

/// How many days month `m` of year `y` has.
pub open spec fn days_in_month(y: int, m: int) -> int {
    if m == 2 {
        if is_leap_year(y) {
            29
        } else {
            28
        }
    } else if m == 4 || m == 6 || m == 9 || m == 11 {
        30
    } else {
        31
    }
}

/// The civil fields denote a real calendar date and time of day.
pub open spec fn ts_fields_ok(s: Seq<u8>) -> bool {
    let y = ts_year(s);
    let m = two_digits(s, 5);
    let d = two_digits(s, 8);
    1 <= m <= 12 && 1 <= d <= days_in_month(y, m) && two_digits(s, 11) <= 23 && two_digits(s, 14)
        <= 59 && two_digits(s, 17) <= 59
}

/// Days from the Unix epoch to civil date `y-m-d` (proleptic Gregorian).
/// The year is shifted by 400 so that every intermediate value is
/// non-negative; 146097 is the days of one 400-year era, 719468 the days
/// from year 0 to the epoch.
pub open spec fn epoch_days(y: int, m: int, d: int) -> int {
    let yp = (if m <= 2 {
        y - 1
    } else {
        y
    }) + 400;
    let era = yp / 400;
    let yoe = yp % 400;
    let mp = if m > 2 {
        m - 3
    } else {
        m + 9
    };
    let doy = (153 * mp + 2) / 5 + d - 1;
    let doe = yoe * 365 + yoe / 4 - yoe / 100 + doy;
    era * 146097 + doe - 146097 - 719468
}

/// The whole-second Unix epoch value of the timestamp's civil fields.
pub open spec fn ts_epoch_seconds(s: Seq<u8>) -> int {
    epoch_days(ts_year(s), two_digits(s, 5), two_digits(s, 8)) * 86400 + two_digits(s, 11) * 3600
        + two_digits(s, 14) * 60 + two_digits(s, 17)
}

/// The stored encoding of a timestamp value: whole seconds in microseconds
/// plus the fractional digits, or nothing if the text does not fit the
/// format.
pub open spec fn ts_encoded(s: Seq<u8>) -> Option<int> {
    if ts_shape_ok(s) && ts_fields_ok(s) {
        Some(ts_epoch_seconds(s) * 1000000 + ts_frac(s))
    } else {
        None
    }
}

/// The value of the two digit bytes at `i` and `i + 1`, as a number.
fn read_two(s: &[u8], i: usize) -> (v: u64)
    requires
        i + 1 < s@.len(),
        is_digit(s@[i as int]),
        is_digit(s@[i as int + 1]),
    ensures
        v as int == two_digits(s@, i as int),
        v <= 99,
{
    ((s[i] - 48) as u64) * 10 + ((s[i + 1] - 48) as u64)
}

/// Whether the byte at `i` is a decimal digit.
fn digit_at(s: &[u8], i: usize) -> (r: bool)
    requires
        i < s@.len(),
    ensures
        r == is_digit(s@[i as int]),
{
    48 <= s[i] && s[i] <= 57
}

/// The stored encoding of the timestamp text `s`, as `ts_encoded` defines
/// it.
#[verifier::rlimit(100)]
pub fn encode_timestamp(s: &[u8]) -> (r: Option<i64>)
    ensures
        match r {
            Some(v) => ts_encoded(s@) == Some(v as int),
            None => ts_encoded(s@) is None,
        },
{
    if s.len() < 26 {
        return None;
    }
    let shape = digit_at(s, 0) && digit_at(s, 1) && digit_at(s, 2) && digit_at(s, 3) && s[4] == 45
        && digit_at(s, 5) && digit_at(s, 6) && s[7] == 45 && digit_at(s, 8) && digit_at(s, 9)
        && s[10] == 84 && digit_at(s, 11) && digit_at(s, 12) && s[13] == 58 && digit_at(s, 14)
        && digit_at(s, 15) && s[16] == 58 && digit_at(s, 17) && digit_at(s, 18) && digit_at(s, 20)
        && digit_at(s, 21) && digit_at(s, 22) && digit_at(s, 23) && digit_at(s, 24) && digit_at(
        s,
        25,
    );
    if !shape {
        return None;
    }
    let y: u64 = ((s[0] - 48) as u64) * 1000 + ((s[1] - 48) as u64) * 100 + ((s[2] - 48) as u64)
        * 10 + ((s[3] - 48) as u64);
    let m = read_two(s, 5);
    let d = read_two(s, 8);
    let hh = read_two(s, 11);
    let mi = read_two(s, 14);
    let ss = read_two(s, 17);
    let leap = y % 4 == 0 && (y % 100 != 0 || y % 400 == 0);
    let dim: u64 = if m == 2 {
        if leap {
            29
        } else {
            28
        }
    } else if m == 4 || m == 6 || m == 9 || m == 11 {
        30
    } else {
        31
    };
    if !(1 <= m && m <= 12 && 1 <= d && d <= dim && hh <= 23 && mi <= 59 && ss <= 59) {
        return None;
    }
    let yp: u64 = if m <= 2 {
        y + 399
    } else {
        y + 400
    };
    let era: u64 = yp / 400;
    let yoe: u64 = yp % 400;
    let mp: u64 = if m > 2 {
        m - 3
    } else {
        m + 9
    };
    let doy: u64 = (153 * mp + 2) / 5 + d - 1;
    let doe: u64 = yoe * 365 + yoe / 4 - yoe / 100 + doy;
    let days_plus: u64 = era * 146097 + doe;
    let tod: u64 = hh * 3600 + mi * 60 + ss;
    let epoch: i64 = (days_plus * 86400 + tod) as i64 - (146097 + 719468) * 86400;
    let frac: u64 = ((s[20] - 48) as u64) * 100000 + ((s[21] - 48) as u64) * 10000 + ((s[22]
        - 48) as u64) * 1000 + ((s[23] - 48) as u64) * 100 + ((s[24] - 48) as u64) * 10 + ((s[25]
        - 48) as u64);
    let enc: i64 = epoch * 1000000 + (frac as i64);
    proof {
        assert(ts_shape_ok(s@));
        assert(ts_fields_ok(s@));
        assert(yp as int == (if two_digits(s@, 5) <= 2 {
            ts_year(s@) - 1
        } else {
            ts_year(s@)
        }) + 400);
        assert(epoch as int == ts_epoch_seconds(s@));
        assert(enc as int == ts_epoch_seconds(s@) * 1000000 + ts_frac(s@));
    }
    Some(enc)
}

} // verus!
