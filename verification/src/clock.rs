//! The time signal: a proleptic-Gregorian date-to-day-count conversion, the
//! combination of a date and a time of day into nanoseconds since the epoch
//! (1970-01-01), and the scaled raw-counter fallback used when no calendar
//! clock is available.

use vstd::arithmetic::div_mod::lemma_fundamental_div_mod;
use vstd::arithmetic::mul::lemma_mul_inequality;
use vstd::prelude::*;

verus! {

/// Days from the epoch to the civil date `(y, m, d)` by the standard
/// proleptic-Gregorian algorithm: years are shifted so a year starts in
/// March, grouped into 400-year eras, and the day-of-era is offset so that
/// 1970-01-01 maps to zero. Division here is Euclidean, which for the
/// positive divisors used equals floor division.
pub open spec fn spec_days_from_civil(y: int, m: int, d: int) -> int {
    let yy = if m <= 2 {
        y - 1
    } else {
        y
    };
    let era = yy / 400;
    let yoe = yy - era * 400;
    let mm = if m > 2 {
        m - 3
    } else {
        m + 9
    };
    let doy = (153 * mm + 2) / 5 + d - 1;
    let doe = yoe * 365 + yoe / 4 - yoe / 100 + doy;
    era * 146097 + doe - 719468
}

/// Nanoseconds since the epoch for a day count plus a time of day.
pub open spec fn spec_clock_nanos(days: int, h: int, mi: int, s: int, ns: int) -> int {
    days * 86_400_000_000_000 + h * 3_600_000_000_000 + mi * 60_000_000_000 + s * 1_000_000_000
        + ns
}

/// Day count since 1970-01-01 of the civil date `(y, m, d)`, exact for every
/// date of the proleptic-Gregorian calendar in the supported year range,
/// leap years included.
pub fn days_from_civil(y: i64, m: i64, d: i64) -> (r: i64)
    requires
        1 <= y <= 1_000_000,
        1 <= m <= 12,
        1 <= d <= 31,
    ensures
        r == spec_days_from_civil(y as int, m as int, d as int),
{
    let yy: i64 = if m <= 2 {
        y - 1
    } else {
        y
    };
    let era: i64 = ((yy as u64) / 400) as i64;
    proof {
        lemma_fundamental_div_mod(yy as int, 400);
    }
    let yoe: i64 = yy - era * 400;
    let mm: i64 = if m > 2 {
        m - 3
    } else {
        m + 9
    };
    let doy: i64 = (((153 * mm + 2) as u64) / 5) as i64 + d - 1;
    let doe: i64 = yoe * 365 + ((yoe as u64) / 4) as i64 - ((yoe as u64) / 100) as i64 + doy;
    era * 146097 + doe - 719468
}

/// Bounds of the day count on the date range the nanosecond clock supports:
/// nonnegative from the epoch on, and small enough that the nanosecond
/// total fits the 64-bit counter.
pub proof fn lemma_days_range(y: int, m: int, d: int)
    requires
        1970 <= y <= 2500,
        1 <= m <= 12,
        1 <= d <= 31,
    ensures
        0 <= spec_days_from_civil(y, m, d) <= 200_000,
{
    let yy = if m <= 2 {
        y - 1
    } else {
        y
    };
    let era = yy / 400;
    let yoe = yy - era * 400;
    let mm = if m > 2 {
        m - 3
    } else {
        m + 9
    };
    let doy = (153 * mm + 2) / 5 + d - 1;
    let doe = yoe * 365 + yoe / 4 - yoe / 100 + doy;
    lemma_fundamental_div_mod(yy, 400);
    assert(0 <= yy % 400 < 400);
    assert(yoe == yy % 400);
    assert(4 <= era <= 6) by {
        assert(yy / 400 >= 4) by {
            vstd::arithmetic::div_mod::lemma_div_is_ordered(1969, yy, 400);
        }
        assert(yy / 400 <= 6) by {
            vstd::arithmetic::div_mod::lemma_div_is_ordered(yy, 2500, 400);
        }
    }
    assert(0 <= yoe / 4 <= 99) by {
        vstd::arithmetic::div_mod::lemma_div_is_ordered(0, yoe, 4);
        vstd::arithmetic::div_mod::lemma_div_is_ordered(yoe, 399, 4);
    }
    assert(0 <= yoe / 100 <= 3) by {
        vstd::arithmetic::div_mod::lemma_div_is_ordered(0, yoe, 100);
        vstd::arithmetic::div_mod::lemma_div_is_ordered(yoe, 399, 100);
    }
    assert(yoe / 100 <= yoe / 4) by {
        vstd::arithmetic::div_mod::lemma_div_is_ordered_by_denominator(yoe, 4, 100);
    }
    assert(0 <= doy <= 367) by {
        assert(0 <= mm <= 11);
        vstd::arithmetic::div_mod::lemma_div_is_ordered(0, 153 * mm + 2, 5);
        vstd::arithmetic::div_mod::lemma_div_is_ordered(153 * mm + 2, 1685, 5);
    }
    assert(yoe * 365 <= 399 * 365) by {
        lemma_mul_inequality(yoe, 399, 365);
    }
    if era >= 5 {
        assert(era * 146097 >= 5 * 146097) by {
            lemma_mul_inequality(5, era, 146097);
        }
        assert(spec_days_from_civil(y, m, d) >= 0);
    } else {
        assert(era == 4);
        if m > 2 {
            assert(yy == y >= 1970);
            assert(yoe >= 370);
            assert(yoe * 365 >= 370 * 365) by {
                lemma_mul_inequality(370, yoe, 365);
            }
            assert(yoe / 4 >= 92) by {
                vstd::arithmetic::div_mod::lemma_div_is_ordered(370, yoe, 4);
            }
            assert(spec_days_from_civil(y, m, d) >= 0);
        } else {
            assert(yy == y - 1 >= 1969);
            assert(yoe >= 369);
            assert(yoe * 365 >= 369 * 365) by {
                lemma_mul_inequality(369, yoe, 365);
            }
            assert(yoe / 4 >= 92) by {
                vstd::arithmetic::div_mod::lemma_div_is_ordered(369, yoe, 4);
            }
            assert(10 <= mm <= 11);
            assert((153 * mm + 2) / 5 >= 306) by {
                vstd::arithmetic::div_mod::lemma_div_is_ordered(1532, 153 * mm + 2, 5);
            }
            assert(spec_days_from_civil(y, m, d) >= 0);
        }
    }
    if era <= 5 {
        assert(era * 146097 <= 5 * 146097) by {
            lemma_mul_inequality(era, 5, 146097);
        }
        assert(spec_days_from_civil(y, m, d) <= 200_000);
    } else {
        assert(era == 6);
        assert(yy >= 2400);
        assert(yoe <= 100);
        assert(yoe * 365 <= 100 * 365) by {
            lemma_mul_inequality(yoe, 100, 365);
        }
        assert(era * 146097 == 6 * 146097);
        assert(spec_days_from_civil(y, m, d) <= 200_000);
    }
}

/// Nanoseconds since the epoch from a day count and a time of day. The day
/// bound is what keeps the 64-bit total from overflowing.
pub fn clock_nanos(days: i64, h: u8, mi: u8, s: u8, ns: u32) -> (r: u64)
    requires
        0 <= days <= 213_000,
        h < 24,
        mi < 60,
        s < 60,
        ns < 1_000_000_000,
    ensures
        r == spec_clock_nanos(days as int, h as int, mi as int, s as int, ns as int),
{
    let dd: u64 = days as u64;
    proof {
        assert(dd == days);
        lemma_mul_inequality(dd as int, 213_000, 86_400_000_000_000);
        assert(213_000 * 86_400_000_000_000int == 18_403_200_000_000_000_000int);
        lemma_mul_inequality(h as int, 23, 3_600_000_000_000);
        assert(23 * 3_600_000_000_000int == 82_800_000_000_000int);
        lemma_mul_inequality(mi as int, 59, 60_000_000_000);
        assert(59 * 60_000_000_000int == 3_540_000_000_000int);
        lemma_mul_inequality(s as int, 59, 1_000_000_000);
        assert(59 * 1_000_000_000int == 59_000_000_000int);
    }
    dd * 86_400_000_000_000 + (h as u64) * 3_600_000_000_000 + (mi as u64) * 60_000_000_000 + (
    s as u64) * 1_000_000_000 + (ns as u64)
}

/// Nanoseconds since the epoch of a full civil timestamp: the date is turned
/// into a day count and combined with the time of day.
pub fn clock_from_civil(y: i64, m: i64, d: i64, h: u8, mi: u8, s: u8, ns: u32) -> (r: u64)
    requires
        1970 <= y <= 2500,
        1 <= m <= 12,
        1 <= d <= 31,
        h < 24,
        mi < 60,
        s < 60,
        ns < 1_000_000_000,
    ensures
        r == spec_clock_nanos(
            spec_days_from_civil(y as int, m as int, d as int),
            h as int,
            mi as int,
            s as int,
            ns as int,
        ),
{
    proof {
        lemma_days_range(y as int, m as int, d as int);
    }
    let days = days_from_civil(y, m, d);
    clock_nanos(days, h, mi, s, ns)
}

/// The monotonic tick value derived from a raw cycle-counter read: the
/// counter halved, the approximation used when no calendar clock exists.
pub fn ticks_from_counter(counter: u64) -> (r: u64)
    ensures
        r == counter / 2,
{
    counter / 2
}

} // verus!

