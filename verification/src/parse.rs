use vstd::prelude::*;
use vstd::arithmetic::div_mod::lemma_fundamental_div_mod;
use crate::calendar::{
    days_in_month, days_in_month_exec, epoch_from_civil, epoch_of, lemma_days_before_month_bounds,
    lemma_days_from_year0_monotone, max_epoch, min_epoch, valid_civil,
};
use crate::timefmt::{dec2, dec4, digit_char, ts_display};

verus! {

/// Whether a character is a decimal digit.
pub open spec fn is_digit(c: char) -> bool {
    '0' <= c && c <= '9'
}

/// The value of a decimal digit character.
pub open spec fn digit_val(c: char) -> int {
    c as u32 - 48
}

/// The value of the two digit characters at `i` and `i + 1`.
pub open spec fn num2(s: Seq<char>, i: int) -> int {
    digit_val(s[i]) * 10 + digit_val(s[i + 1])
}

/// The value of the four digit characters starting at `i`.
pub open spec fn num4(s: Seq<char>, i: int) -> int {
    num2(s, i) * 100 + num2(s, i + 2)
}

/// Whether the text after the seconds field is an accepted fractional part:
/// either nothing, or a dot followed by one to nine digits.
pub open spec fn frac_ok(s: Seq<char>) -> bool {
    s.len() == 19 || (21 <= s.len() <= 29 && s[19] == '.' && forall|k: int|
        20 <= k < s.len() ==> is_digit(s[k]))
}

/// Whether a text has the shape of an accepted timestamp: a four-digit year,
/// two-digit month and day joined by `-` (or by `/`, then with a space before
/// the time and no fractional part), a space or `T`, a two-digit
/// colon-separated time, and an optional fractional second.
pub open spec fn ts_shape(s: Seq<char>) -> bool {
    &&& s.len() >= 19
    &&& is_digit(s[0]) && is_digit(s[1]) && is_digit(s[2]) && is_digit(s[3])
    &&& (s[4] == '-' || s[4] == '/')
    &&& is_digit(s[5]) && is_digit(s[6])
    &&& s[7] == s[4]
    &&& is_digit(s[8]) && is_digit(s[9])
    &&& (s[10] == ' ' || s[10] == 'T')
    &&& is_digit(s[11]) && is_digit(s[12])
    &&& s[13] == ':'
    &&& is_digit(s[14]) && is_digit(s[15])
    &&& s[16] == ':'
    &&& is_digit(s[17]) && is_digit(s[18])
    &&& frac_ok(s)
    &&& (s[4] == '/' ==> s[10] == ' ' && s.len() == 19)
}

/// Whether a text is an accepted timestamp: the right shape, and fields that
/// name a real civil datetime.
pub open spec fn ts_ok(s: Seq<char>) -> bool {
    ts_shape(s) && valid_civil(
        num4(s, 0),
        num2(s, 5),
        num2(s, 8),
        num2(s, 11),
        num2(s, 14),
        num2(s, 17),
    )
}

/// What the timestamp parser returns: the epoch second of an accepted text,
/// read as UTC, and nothing for any other text.
pub open spec fn parse_ts_spec(s: Seq<char>) -> Option<int> {
    if ts_ok(s) {
        Some(
            epoch_of(num4(s, 0), num2(s, 5), num2(s, 8), num2(s, 11), num2(s, 14), num2(s, 17)),
        )
    } else {
        None
    }
}

/// Every stored civil datetime has its epoch second between the two bounds.
pub proof fn lemma_epoch_range(y: int, m: int, d: int, h: int, mi: int, s: int)
    requires
        valid_civil(y, m, d, h, mi, s),
    ensures
        min_epoch() <= epoch_of(y, m, d, h, mi, s) <= max_epoch(),
{
    lemma_days_from_year0_monotone(0, y);
    lemma_days_from_year0_monotone(y + 1, 10000);
    lemma_days_before_month_bounds(y, m);
    lemma_days_before_month_bounds(y, 13);
    lemma_days_before_month_bounds(1970, 1);
    lemma_days_before_month_bounds(9999, 12);
    lemma_days_before_month_bounds(9999, 13);
    crate::calendar::lemma_days_before_month_monotone(y, m + 1, 13);
    assert(crate::calendar::days_before_month(y, m + 1) == crate::calendar::days_before_month(y, m)
        + days_in_month(y, m));
    assert(crate::calendar::days_from_year0(10000) == crate::calendar::days_from_year0(9999)
        + crate::calendar::days_in_year(9999));
    assert(crate::calendar::days_from_year0(y + 1) == crate::calendar::days_from_year0(y)
        + crate::calendar::days_in_year(y));
}

fn digit_at(s: &str, i: usize) -> (r: Option<u32>)
    requires
        i < s@.len(),
    ensures
        match r {
            Some(v) => is_digit(s@[i as int]) && v == digit_val(s@[i as int]) && v <= 9,
            None => !is_digit(s@[i as int]),
        },
{
    let c = s.get_char(i);
    let u = c as u32;
    if 48 <= u && u <= 57 {
        Some(u - 48)
    } else {
        None
    }
}

/// Parses a timestamp text against the accepted formats, as `parse_ts_spec`
/// states them, and yields its epoch second; rejected texts yield nothing.
pub fn parse_ts(s: &str) -> (r: Option<i64>)
    ensures
        match r {
            Some(t) => {
                &&& parse_ts_spec(s@) == Some(t as int)
                &&& min_epoch() <= t <= max_epoch()
            },
            None => parse_ts_spec(s@) is None,
        },
{
    let n = s.unicode_len();
    if n < 19 {
        return None;
    }
    let d0 = digit_at(s, 0);
    let d1 = digit_at(s, 1);
    let d2 = digit_at(s, 2);
    let d3 = digit_at(s, 3);
    let d5 = digit_at(s, 5);
    let d6 = digit_at(s, 6);
    let d8 = digit_at(s, 8);
    let d9 = digit_at(s, 9);
    let d11 = digit_at(s, 11);
    let d12 = digit_at(s, 12);
    let d14 = digit_at(s, 14);
    let d15 = digit_at(s, 15);
    let d17 = digit_at(s, 17);
    let d18 = digit_at(s, 18);
    let all_digits = d0.is_some() && d1.is_some() && d2.is_some() && d3.is_some() && d5.is_some()
        && d6.is_some() && d8.is_some() && d9.is_some() && d11.is_some() && d12.is_some()
        && d14.is_some() && d15.is_some() && d17.is_some() && d18.is_some();
    if !all_digits {
        return None;
    }
    let sep = s.get_char(4);
    if !(sep == '-' || sep == '/') {
        return None;
    }
    if s.get_char(7) != sep {
        return None;
    }
    let tsep = s.get_char(10);
    if !(tsep == ' ' || tsep == 'T') {
        return None;
    }
    if s.get_char(13) != ':' || s.get_char(16) != ':' {
        return None;
    }
    if sep == '/' && (tsep != ' ' || n != 19) {
        return None;
    }
    // The optional fractional part: a dot, then one to nine digits.
    if n != 19 {
        if n < 21 || n > 29 {
            return None;
        }
        if s.get_char(19) != '.' {
            return None;
        }
        let mut k: usize = 20;
        while k < n
            invariant
                20 <= k <= n,
                n == s@.len(),
                forall|j: int| 20 <= j < k ==> is_digit(s@[j]),
            decreases n - k,
        {
            if digit_at(s, k).is_none() {
                return None;
            }
            k += 1;
        }
    }
    let y = (d0.unwrap() * 10 + d1.unwrap()) * 100 + (d2.unwrap() * 10 + d3.unwrap());
    let mo = d5.unwrap() * 10 + d6.unwrap();
    let dd = d8.unwrap() * 10 + d9.unwrap();
    let h = d11.unwrap() * 10 + d12.unwrap();
    let mi = d14.unwrap() * 10 + d15.unwrap();
    let sec = d17.unwrap() * 10 + d18.unwrap();
    proof {
        assert(y == num4(s@, 0));
        assert(mo == num2(s@, 5) && dd == num2(s@, 8) && h == num2(s@, 11) && mi == num2(s@, 14)
            && sec == num2(s@, 17));
        assert(ts_shape(s@));
    }
    if mo < 1 || mo > 12 || dd < 1 || h > 23 || mi > 59 || sec > 59 {
        return None;
    }
    if dd > days_in_month_exec(y, mo) {
        return None;
    }
    proof {
        assert(valid_civil(y as int, mo as int, dd as int, h as int, mi as int, sec as int));
        lemma_epoch_range(y as int, mo as int, dd as int, h as int, mi as int, sec as int);
    }
    Some(epoch_from_civil(y, mo, dd, h, mi, sec))
}

proof fn lemma_digit_round_trip(k: int)
    requires
        0 <= k <= 9,
    ensures
        is_digit(digit_char(k)),
        digit_val(digit_char(k)) == k,
        digit_char(k) != '-' && digit_char(k) != '/' && digit_char(k) != ':' && digit_char(k)
            != ' ' && digit_char(k) != 'T' && digit_char(k) != '.',
{
    assert(digit_char(k) as u32 == 48 + k);
}

proof fn lemma_dec2_round_trip(s: Seq<char>, i: int, n: int)
    requires
        0 <= n < 100,
        0 <= i,
        i + 2 <= s.len(),
        s[i] == dec2(n)[0],
        s[i + 1] == dec2(n)[1],
    ensures
        is_digit(s[i]) && is_digit(s[i + 1]),
        num2(s, i) == n,
{
    lemma_digit_round_trip(n / 10);
    lemma_digit_round_trip(n % 10);
    lemma_fundamental_div_mod(n, 10);
}

/// Round trip: the text the collector writes for any valid civil datetime is
/// accepted by the timestamp parser, and parses back to that datetime's epoch
/// second.
pub proof fn lemma_format_parse_round_trip(y: int, mo: int, d: int, h: int, mi: int, s: int)
    requires
        valid_civil(y, mo, d, h, mi, s),
    ensures
        parse_ts_spec(ts_display(y, mo, d, h, mi, s)) == Some(epoch_of(y, mo, d, h, mi, s)),
{
    let t = ts_display(y, mo, d, h, mi, s);
    assert(t =~= seq![
        digit_char(y / 100 / 10),
        digit_char(y / 100 % 10),
        digit_char(y % 100 / 10),
        digit_char(y % 100 % 10),
        '-',
        digit_char(mo / 10),
        digit_char(mo % 10),
        '-',
        digit_char(d / 10),
        digit_char(d % 10),
        ' ',
        digit_char(h / 10),
        digit_char(h % 10),
        ':',
        digit_char(mi / 10),
        digit_char(mi % 10),
        ':',
        digit_char(s / 10),
        digit_char(s % 10),
    ]);
    assert(t.len() == 19);
    lemma_dec2_round_trip(t, 0, y / 100);
    lemma_dec2_round_trip(t, 2, y % 100);
    lemma_dec2_round_trip(t, 5, mo);
    lemma_dec2_round_trip(t, 8, d);
    lemma_dec2_round_trip(t, 11, h);
    lemma_dec2_round_trip(t, 14, mi);
    lemma_dec2_round_trip(t, 17, s);
    lemma_fundamental_div_mod(y, 100);
    assert(num4(t, 0) == y);
    assert(ts_shape(t));
    assert(ts_ok(t));
}

} // verus!
