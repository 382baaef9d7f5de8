//! Injected time. The domain never reads the OS clock itself.
//!
//! Inside, time is UTC Unix milliseconds; on the wire it is an RFC 3339
//! string. Tests and the mock use [`FixedClock`], so that the same inputs
//! always give the same observations.

use vstd::prelude::*;
use crate::ids::Timestamp;
use crate::text::{padded_decimal, padded_signed, push_char, push_padded_decimal};

verus! {

/// UTC Unix milliseconds.
#[derive(Debug, Clone, Copy, PartialEq, Eq, PartialOrd, Ord, Hash, Structural)]
pub struct UnixMillis(pub i64);

impl UnixMillis {
    /// Milliseconds from `other` to `self`; negative when `other` is later.
    pub fn elapsed_since(self, other: Self) -> (r: i64)
        requires
            i64::MIN <= self.0 - other.0 <= i64::MAX,
        ensures
            r == self.0 - other.0,
    {
        self.0 - other.0
    }

    /// The instant `millis` later.
    pub fn plus_millis(self, millis: i64) -> (r: Self)
        requires
            i64::MIN <= self.0 + millis <= i64::MAX,
        ensures
            r.0 == self.0 + millis,
    {
        UnixMillis(self.0 + millis)
    }

    /// The RFC 3339 form (UTC, millisecond precision).
    pub fn to_timestamp(self) -> (r: Timestamp)
        ensures
            r.0@ == spec_rfc3339(self.0 as int),
    {
        Timestamp(format_rfc3339_utc(self.0))
    }
}

/// A source of the current UTC time.
pub trait Clock {
    /// The current instant.
    fn now(&self) -> UnixMillis;
}

/// A clock that only moves when told to; for tests and the mock.
#[derive(Debug, Clone)]
pub struct FixedClock {
    pub now: UnixMillis,
}

impl FixedClock {
    pub fn new(now: UnixMillis) -> (r: Self)
        ensures
            r.now == now,
    {
        FixedClock { now }
    }

    /// Moves the clock; freshness tests cross their thresholds this way.
    pub fn advance_millis(&mut self, millis: i64)
        requires
            i64::MIN <= old(self).now.0 + millis <= i64::MAX,
        ensures
            final(self).now.0 == old(self).now.0 + millis,
    {
        self.now = self.now.plus_millis(millis);
    }

    pub fn set(&mut self, now: UnixMillis)
        ensures
            final(self).now == now,
    {
        self.now = now;
    }

    /// The instant the clock shows.
    pub fn current(&self) -> (r: UnixMillis)
        ensures
            r == self.now,
    {
        self.now
    }
}

impl Clock for FixedClock {
    fn now(&self) -> (r: UnixMillis)
        ensures
            r == self.now,
    {
        self.now
    }
}

pub const MILLIS_PER_DAY: i64 = 86_400_000;

/// A civil date: year, month in 1..=12, day in 1..=31.
pub open spec fn spec_civil_from_days(days: int) -> (int, int, int) {
    let z = days + 719_468;
    let era = z / 146_097;
    let day_of_era = z % 146_097;
    let year_of_era = (day_of_era - day_of_era / 1_460 + day_of_era / 36_524 - day_of_era / 146_096)
        / 365;
    let year = year_of_era + era * 400;
    let day_of_year = day_of_era - (365 * year_of_era + year_of_era / 4 - year_of_era / 100);
    let mp = (5 * day_of_year + 2) / 153;
    let day = day_of_year - (153 * mp + 2) / 5 + 1;
    let month = if mp < 10 { mp + 3 } else { mp - 9 };
    let year = if month <= 2 { year + 1 } else { year };
    (year, month, day)
}

/// `YYYY-MM-DDTHH:MM:SS.mmmZ` for a Unix millisecond value, with floor
/// division so that instants before 1970 count back from the previous
/// midnight. Leap seconds are not modelled.
pub open spec fn spec_rfc3339(unix_millis: int) -> Seq<char> {
    let days = unix_millis / 86_400_000;
    let millis_of_day = unix_millis % 86_400_000;
    let (year, month, day) = spec_civil_from_days(days);
    let millis = millis_of_day % 1_000;
    let total_seconds = millis_of_day / 1_000;
    let second = total_seconds % 60;
    let minute = (total_seconds / 60) % 60;
    let hour = total_seconds / 3_600;
    padded_signed(year, 4) + seq!['-'] + padded_decimal(month as nat, 2) + seq!['-']
        + padded_decimal(day as nat, 2) + seq!['T'] + padded_decimal(hour as nat, 2) + seq![':']
        + padded_decimal(minute as nat, 2) + seq![':'] + padded_decimal(second as nat, 2)
        + seq!['.'] + padded_decimal(millis as nat, 3) + seq!['Z']
}

/// Floor division by a positive divisor.
fn div_floor(a: i64, d: i64) -> (r: i64)
    requires
        d > 0,
    ensures
        r == a as int / d as int,
{
    assert(i64::MIN <= (a as int) / (d as int) <= i64::MAX) by (nonlinear_arith)
        requires
            d > 0,
            i64::MIN <= a <= i64::MAX,
    ;
    match a.checked_div_euclid(d) {
        Some(q) => q,
        None => {
            assert(false);
            0
        },
    }
}

/// Remainder of floor division by a positive divisor; always in `0..d`.
fn mod_floor(a: i64, d: i64) -> (r: i64)
    requires
        d > 0,
    ensures
        r == a as int % d as int,
        0 <= r < d,
{
    assert(0 <= (a as int) % (d as int) < (d as int));
    match a.checked_rem_euclid(d) {
        Some(m) => m,
        None => {
            assert(false);
            0
        },
    }
}

/// Ranges of the intermediate values of the civil-from-days conversion.
pub proof fn lemma_civil_from_days_ranges(days: int)
    ensures
        1 <= spec_civil_from_days(days).1 <= 12,
        1 <= spec_civil_from_days(days).2 <= 31,
{
    let z = days + 719_468;
    let doe = z % 146_097;
    assert(0 <= doe < 146_097);
    let yoe = (doe - doe / 1_460 + doe / 36_524 - doe / 146_096) / 365;
    assert(0 <= doe / 1_460 <= 100);
    assert(0 <= doe / 36_524 <= 4);
    assert(0 <= doe / 146_096 <= 1);
    assert(0 <= yoe <= 399);
    let doy = doe - (365 * yoe + yoe / 4 - yoe / 100);
    lemma_day_of_year_range(doe, yoe);
    assert(0 <= doy <= 365);
    let mp = (5 * doy + 2) / 153;
    assert(0 <= mp <= 11);
    let day = doy - (153 * mp + 2) / 5 + 1;
    assert(153 * mp <= 5 * doy + 2 < 153 * mp + 153);
    assert(1 <= day <= 31);
}

proof fn lemma_day_of_year_range(doe: int, yoe: int)
    requires
        0 <= doe < 146_097,
        yoe == (doe - doe / 1_460 + doe / 36_524 - doe / 146_096) / 365,
    ensures
        0 <= doe - (365 * yoe + yoe / 4 - yoe / 100) <= 365,
{
    let n = doe - doe / 1_460 + doe / 36_524 - doe / 146_096;
    assert(365 * yoe <= n < 365 * yoe + 365);
    // Counting back: `n` is the day of the era with the leap days removed,
    // so adding the leap days before year `yoe` gives back at most `doe`.
    assert(0 <= doe - (365 * yoe + yoe / 4 - yoe / 100) <= 365) by (nonlinear_arith)
        requires
            0 <= doe < 146_097,
            n == doe - doe / 1_460 + doe / 36_524 - doe / 146_096,
            365 * yoe <= n < 365 * yoe + 365,
            0 <= yoe,
    ;
}

/// Formats Unix milliseconds as RFC 3339 in UTC with millisecond precision.
/// The date uses the civil-from-days algorithm, so instants before 1970 are
/// handled too.
pub fn format_rfc3339_utc(unix_millis: i64) -> (r: String)
    ensures
        r@ == spec_rfc3339(unix_millis as int),
{
    let days = div_floor(unix_millis, MILLIS_PER_DAY);
    let millis_of_day = mod_floor(unix_millis, MILLIS_PER_DAY);
    let (year, month, day) = civil_from_days(days);
    let millis = millis_of_day % 1_000;
    let total_seconds = millis_of_day / 1_000;
    let second = total_seconds % 60;
    let minute = (total_seconds / 60) % 60;
    let hour = total_seconds / 3_600;

    let mut out = String::new();
    if year < 0 {
        push_char(&mut out, '-');
        push_padded_decimal(&mut out, (0 - year) as u64, 3);
    } else {
        push_padded_decimal(&mut out, year as u64, 4);
    }
    push_char(&mut out, '-');
    push_padded_decimal(&mut out, month as u64, 2);
    push_char(&mut out, '-');
    push_padded_decimal(&mut out, day as u64, 2);
    push_char(&mut out, 'T');
    push_padded_decimal(&mut out, hour as u64, 2);
    push_char(&mut out, ':');
    push_padded_decimal(&mut out, minute as u64, 2);
    push_char(&mut out, ':');
    push_padded_decimal(&mut out, second as u64, 2);
    push_char(&mut out, '.');
    push_padded_decimal(&mut out, millis as u64, 3);
    push_char(&mut out, 'Z');
    proof {
        let y = year as int;
        assert(out@ =~= spec_rfc3339(unix_millis as int));
    }
    out
}

/// Converts a day count since 1970-01-01 to a civil date.
pub fn civil_from_days(days: i64) -> (r: (i64, u32, u32))
    requires
        i64::MIN / 86_400_000 <= days <= i64::MAX / 86_400_000,
    ensures
        r.0 as int == spec_civil_from_days(days as int).0,
        r.1 as int == spec_civil_from_days(days as int).1,
        r.2 as int == spec_civil_from_days(days as int).2,
        1 <= r.1 <= 12,
        1 <= r.2 <= 31,
{
    proof {
        lemma_civil_from_days_ranges(days as int);
    }
    let z = days + 719_468;
    let era = div_floor(z, 146_097);
    let day_of_era = mod_floor(z, 146_097);
    let year_of_era = (day_of_era - day_of_era / 1_460 + day_of_era / 36_524 - day_of_era / 146_096)
        / 365;
    let year = year_of_era + era * 400;
    let day_of_year = day_of_era - (365 * year_of_era + year_of_era / 4 - year_of_era / 100);
    let mp = (5 * day_of_year + 2) / 153;
    let day = day_of_year - (153 * mp + 2) / 5 + 1;
    let month = if mp < 10 { mp + 3 } else { mp - 9 };
    let year = if month <= 2 { year + 1 } else { year };
    (year, month as u32, day as u32)
}

} // verus!
