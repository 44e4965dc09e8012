use vstd::prelude::*;

verus! {

/// Whether a proleptic-Gregorian year is a leap year.
pub open spec fn is_leap_year(y: int) -> bool {
    (y % 4 == 0 && y % 100 != 0) || y % 400 == 0
}

/// The number of days in a calendar year.
pub open spec fn days_in_year(y: int) -> int {
    if is_leap_year(y) {
        366
    } else {
        365
    }
}

/// The number of days in a calendar month, month 1 being January.
pub open spec fn days_in_month(y: int, m: int) -> int {
    if m == 2 {
        if is_leap_year(y) {
            29
        } else {
            28
        }
    } else if m == 4 || m == 6 || m == 9 || m == 11 {
        30
    } else {
        31
    }
}

/// The number of days in the years `0, 1, .., y - 1`.
pub open spec fn days_from_year0(y: int) -> int
    decreases y,
{
    if y <= 0 {
        0
    } else {
        days_from_year0(y - 1) + days_in_year(y - 1)
    }
}

/// The number of days of year `y` that lie before month `m`.
pub open spec fn days_before_month(y: int, m: int) -> int
    decreases m,
{
    if m <= 1 {
        0
    } else {
        days_before_month(y, m - 1) + days_in_month(y, m - 1)
    }
}

/// The absolute day number of a civil date: days since year 0, January 1.
pub open spec fn day_number(y: int, m: int, d: int) -> int {
    days_from_year0(y) + days_before_month(y, m) + (d - 1)
}

/// Whether a civil datetime lies in the range the library stores and reads:
/// four-digit years, real months, days, and times.
pub open spec fn valid_civil(y: int, m: int, d: int, h: int, mi: int, s: int) -> bool {
    0 <= y <= 9999 && 1 <= m <= 12 && 1 <= d <= days_in_month(y, m) && 0 <= h <= 23 && 0 <= mi
        <= 59 && 0 <= s <= 59
}

/// The Unix epoch second of a civil datetime read as UTC.
pub open spec fn epoch_of(y: int, m: int, d: int, h: int, mi: int, s: int) -> int {
    (day_number(y, m, d) - day_number(1970, 1, 1)) * 86400 + h * 3600 + mi * 60 + s
}

/// The smallest epoch second of any datetime the library can store.
pub open spec fn min_epoch() -> int {
    epoch_of(0, 1, 1, 0, 0, 0)
}

/// The largest epoch second of any datetime the library can store.
pub open spec fn max_epoch() -> int {
    epoch_of(9999, 12, 31, 23, 59, 59)
}

/// Every epoch second the library stores fits comfortably in a 64-bit
/// signed integer.
pub proof fn lemma_epoch_i64_bounds()
    ensures
        -100_000_000_000 <= min_epoch(),
        max_epoch() <= 400_000_000_000,
{
    lemma_days_from_year0_bounds(1970);
    lemma_days_from_year0_bounds(9999);
    lemma_days_before_month_bounds(1970, 1);
    lemma_days_before_month_bounds(9999, 12);
    lemma_days_before_month_bounds(9999, 13);
}

pub proof fn lemma_days_from_year0_bounds(y: int)
    requires
        0 <= y,
    ensures
        365 * y <= days_from_year0(y) <= 366 * y,
    decreases y,
{
    if y > 0 {
        lemma_days_from_year0_bounds(y - 1);
    }
}

pub proof fn lemma_days_from_year0_monotone(a: int, b: int)
    requires
        0 <= a <= b,
    ensures
        days_from_year0(a) <= days_from_year0(b),
        days_from_year0(b) - days_from_year0(a) >= 365 * (b - a),
    decreases b - a,
{
    if a < b {
        lemma_days_from_year0_monotone(a, b - 1);
    }
}

pub proof fn lemma_days_before_month_bounds(y: int, m: int)
    requires
        1 <= m <= 13,
    ensures
        28 * (m - 1) <= days_before_month(y, m) <= 31 * (m - 1),
        days_before_month(y, 13) == days_in_year(y),
    decreases m,
{
    if m > 1 {
        lemma_days_before_month_bounds(y, m - 1);
    }
    assert(days_before_month(y, 13) == days_in_year(y)) by {
        reveal_with_fuel(days_before_month, 14);
    }
}

pub proof fn lemma_days_before_month_monotone(y: int, a: int, b: int)
    requires
        1 <= a <= b <= 13,
    ensures
        days_before_month(y, a) <= days_before_month(y, b),
    decreases b - a,
{
    if a < b {
        lemma_days_before_month_monotone(y, a, b - 1);
    }
}

/// The year that holds the absolute day `ad`, searched upward from `y`.
pub open spec fn year_search(ad: int, y: int) -> int
    decreases 9999 - y,
{
    if y >= 9999 {
        9999
    } else if days_from_year0(y + 1) <= ad {
        year_search(ad, y + 1)
    } else {
        y
    }
}

/// The month of year `y` that holds the day `rem` (counted from the start of
/// the year), searched upward from month `m`.
pub open spec fn month_search(y: int, rem: int, m: int) -> int
    decreases 12 - m,
{
    if m >= 12 {
        12
    } else if days_before_month(y, m + 1) <= rem {
        month_search(y, rem, m + 1)
    } else {
        m
    }
}

/// The civil date `(year, month, day)` of an absolute day number.
pub open spec fn civil_of_day(ad: int) -> (int, int, int) {
    let y = year_search(ad, 0);
    let rem = ad - days_from_year0(y);
    let m = month_search(y, rem, 1);
    let d = rem - days_before_month(y, m) + 1;
    (y, m, d)
}

/// The number of days in the years `0, 1, .., y - 1`, executably.
pub fn days_from_year0_exec(y: u32) -> (r: i64)
    requires
        y <= 10000,
    ensures
        r == days_from_year0(y as int),
{
    let mut acc: i64 = 0;
    let mut i: u32 = 0;
    while i < y
        invariant
            0 <= i <= y <= 10000,
            acc == days_from_year0(i as int),
            0 <= acc <= 366 * i,
        decreases y - i,
    {
        proof {
            lemma_days_from_year0_bounds(i as int);
        }
        if (i % 4 == 0 && i % 100 != 0) || i % 400 == 0 {
            acc += 366;
        } else {
            acc += 365;
        }
        i += 1;
    }
    acc
}

/// The number of days in a calendar month, executably.
pub fn days_in_month_exec(y: u32, m: u32) -> (r: u32)
    ensures
        r == days_in_month(y as int, m as int),
{
    if m == 2 {
        if (y % 4 == 0 && y % 100 != 0) || y % 400 == 0 {
            29
        } else {
            28
        }
    } else if m == 4 || m == 6 || m == 9 || m == 11 {
        30
    } else {
        31
    }
}

/// The number of days of year `y` that lie before month `m`, executably.
pub fn days_before_month_exec(y: u32, m: u32) -> (r: i64)
    requires
        1 <= m <= 13,
    ensures
        r == days_before_month(y as int, m as int),
{
    let mut acc: i64 = 0;
    let mut i: u32 = 1;
    proof {
        lemma_days_before_month_bounds(y as int, m as int);
    }
    while i < m
        invariant
            1 <= i <= m <= 13,
            acc == days_before_month(y as int, i as int),
            0 <= acc <= 366,
        decreases m - i,
    {
        proof {
            lemma_days_before_month_bounds(y as int, i as int);
            lemma_days_before_month_bounds(y as int, i + 1);
        }
        acc += days_in_month_exec(y, i) as i64;
        i += 1;
    }
    acc
}

/// The Unix epoch second of a civil datetime read as UTC, executably.
pub fn epoch_from_civil(y: u32, m: u32, d: u32, h: u32, mi: u32, s: u32) -> (r: i64)
    requires
        valid_civil(y as int, m as int, d as int, h as int, mi as int, s as int),
    ensures
        r == epoch_of(y as int, m as int, d as int, h as int, mi as int, s as int),
{
    proof {
        lemma_days_from_year0_bounds(y as int);
        lemma_days_from_year0_bounds(1970);
        lemma_days_before_month_bounds(y as int, m as int);
        lemma_days_before_month_bounds(1970, 1);
    }
    let days = days_from_year0_exec(y) + days_before_month_exec(y, m) + (d as i64 - 1)
        - days_from_year0_exec(1970);
    days * 86400 + (h as i64) * 3600 + (mi as i64) * 60 + (s as i64)
}

/// The civil date of the day holding an epoch second, together with the day
/// number itself: what month a stored instant falls in.
pub fn civil_from_epoch(t: i64) -> (r: (u32, u32, u32))
    requires
        min_epoch() <= t <= max_epoch(),
    ensures
        (r.0 as int, r.1 as int, r.2 as int) == civil_of_day(
            t / 86400 + day_number(1970, 1, 1),
        ),
        1 <= r.1 <= 12,
        r.0 <= 9999,
        1 <= r.2 <= days_in_month(r.0 as int, r.1 as int),
{
    proof {
        lemma_days_from_year0_bounds(1970);
        lemma_days_from_year0_bounds(10000);
        lemma_days_from_year0_monotone(1970, 10000);
    }
    // Absolute day number of the instant's day.
    let day: i64 = if t >= 0 {
        t / 86400
    } else {
        let a = -t;
        if a % 86400 == 0 {
            -(a / 86400)
        } else {
            -(a / 86400) - 1
        }
    };
    proof {
        assert(day == t as int / 86400);
    }
    let ad: i64 = day + days_from_year0_exec(1970);
    proof {
        assert(ad < days_from_year0(10000)) by {
            assert(t as int / 86400 * 86400 <= t as int);
            assert((t as int) < 86400 * (t as int / 86400 + 1));
            assert(max_epoch() < (day_number(9999, 12, 31) - day_number(1970, 1, 1) + 1) * 86400);
            lemma_days_before_month_bounds(9999, 12);
            lemma_days_before_month_bounds(9999, 13);
        }
        assert(ad >= 0) by {
            assert(min_epoch() == (0 - day_number(1970, 1, 1)) * 86400);
        }
    }
    // Find the year.
    let mut y: u32 = 0;
    let mut acc: i64 = 0;
    while acc + days_in_year_exec(y) <= ad
        invariant
            0 <= ad < days_from_year0(10000),
            0 <= y <= 9999,
            acc == days_from_year0(y as int),
            0 <= acc <= 3660000,
            acc <= ad,
            ad < 3660000,
            year_search(ad as int, 0) == year_search(ad as int, y as int),
        decreases ad - acc,
    {
        proof {
            assert(days_from_year0(y + 1) == acc + days_in_year(y as int));
            if y as int >= 9999 {
                lemma_days_from_year0_monotone(10000, 10000);
                assert(days_from_year0(10000) == days_from_year0(9999) + days_in_year(9999));
                assert(false);
            }
        }
        acc += days_in_year_exec(y);
        y += 1;
        proof {
            lemma_days_from_year0_bounds(y as int);
        }
    }
    proof {
        assert(year_search(ad as int, y as int) == y as int);
        assert(y as int == year_search(ad as int, 0));
    }
    let rem: i64 = ad - acc;
    proof {
        assert(days_from_year0(y as int) + days_in_year(y as int) == days_from_year0(y + 1));
        assert(rem < days_in_year(y as int));
    }
    // Find the month.
    let mut m: u32 = 1;
    let mut macc: i64 = 0;
    while m < 12 && macc + days_in_month_exec(y, m) as i64 <= rem
        invariant
            1 <= m <= 12,
            0 <= rem <= 366,
            macc == days_before_month(y as int, m as int),
            0 <= macc <= 366,
            macc <= rem,
            month_search(y as int, rem as int, 1) == month_search(y as int, rem as int, m as int),
        decreases 12 - m,
    {
        proof {
            assert(days_before_month(y as int, m + 1) == macc + days_in_month(y as int, m as int));
            lemma_days_before_month_bounds(y as int, m + 1);
        }
        macc += days_in_month_exec(y, m) as i64;
        m += 1;
    }
    proof {
        lemma_days_before_month_bounds(y as int, m as int);
        if m < 12 {
            assert(month_search(y as int, rem as int, m as int) == m as int);
        } else {
            assert(month_search(y as int, rem as int, 12) == 12);
        }
        assert(rem - days_before_month(y as int, m as int) + 1 <= days_in_month(y as int, m as int))
            by {
            lemma_days_before_month_bounds(y as int, 13);
            if m < 12 {
                assert(days_before_month(y as int, m + 1) == days_before_month(y as int, m as int)
                    + days_in_month(y as int, m as int));
            } else {
                assert(days_before_month(y as int, 13) == days_before_month(y as int, 12)
                    + days_in_month(y as int, 12));
            }
        }
    }
    let d: u32 = (rem - macc) as u32 + 1;
    (y, m, d)
}

/// The number of days in a calendar year, executably.
pub fn days_in_year_exec(y: u32) -> (r: i64)
    ensures
        r == days_in_year(y as int),
{
    if (y % 4 == 0 && y % 100 != 0) || y % 400 == 0 {
        366
    } else {
        365
    }
}

} // verus!
