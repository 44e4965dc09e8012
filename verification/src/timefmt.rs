use vstd::prelude::*;
use crate::strutil::push_char;

verus! {

/// The decimal digit character for a value `0` to `9`.
pub open spec fn digit_char(d: int) -> char {
    ((48 + d) as u32) as char
}

/// The two-digit, zero-padded decimal image of a value below one hundred.
pub open spec fn dec2(n: int) -> Seq<char> {
    seq![digit_char(n / 10), digit_char(n % 10)]
}

/// The four-digit, zero-padded decimal image of a value below ten thousand.
pub open spec fn dec4(n: int) -> Seq<char> {
    dec2(n / 100) + dec2(n % 100)
}

/// The textual form the collector writes for a timestamp:
/// `YYYY-MM-DD hh:mm:ss`.
pub open spec fn ts_display(y: int, mo: int, d: int, h: int, mi: int, s: int) -> Seq<char> {
    dec4(y) + seq!['-'] + dec2(mo) + seq!['-'] + dec2(d) + seq![' '] + dec2(h) + seq![':'] + dec2(
        mi,
    ) + seq![':'] + dec2(s)
}

fn digit_exec(d: u32) -> (c: char)
    requires
        d <= 9,
    ensures
        c == digit_char(d as int),
{
    ((48 + d) as u8) as char
}

/// Appends the two-digit decimal image of `n` to the string.
pub fn push_two_digits(out: &mut String, n: u32)
    requires
        n < 100,
    ensures
        final(out)@ == old(out)@ + dec2(n as int),
{
    push_char(out, digit_exec(n / 10));
    push_char(out, digit_exec(n % 10));
    proof {
        assert(out@ =~= old(out)@ + dec2(n as int));
    }
}

/// Appends the four-digit decimal image of `n` to the string.
pub fn push_four_digits(out: &mut String, n: u32)
    requires
        n < 10000,
    ensures
        final(out)@ == old(out)@ + dec4(n as int),
{
    push_two_digits(out, n / 100);
    push_two_digits(out, n % 100);
    proof {
        assert(out@ =~= old(out)@ + dec4(n as int));
    }
}

/// The timestamp text written with each sample: `YYYY-MM-DD hh:mm:ss`,
/// zero-padded.
pub fn format_timestamp(y: u32, mo: u32, d: u32, h: u32, mi: u32, s: u32) -> (r: String)
    requires
        y < 10000,
        mo < 100,
        d < 100,
        h < 100,
        mi < 100,
        s < 100,
    ensures
        r@ == ts_display(y as int, mo as int, d as int, h as int, mi as int, s as int),
{
    let mut out = String::new();
    push_four_digits(&mut out, y);
    push_char(&mut out, '-');
    push_two_digits(&mut out, mo);
    push_char(&mut out, '-');
    push_two_digits(&mut out, d);
    push_char(&mut out, ' ');
    push_two_digits(&mut out, h);
    push_char(&mut out, ':');
    push_two_digits(&mut out, mi);
    push_char(&mut out, ':');
    push_two_digits(&mut out, s);
    proof {
        assert(out@ =~= ts_display(y as int, mo as int, d as int, h as int, mi as int, s as int));
    }
    out
}

/// The year-month prefix of a monthly scope filename: four-digit year,
/// two-digit month, no separator.
pub fn month_prefix_yyyymm(year: u32, month: u32) -> (r: String)
    requires
        year < 10000,
        month < 100,
    ensures
        r@ == dec4(year as int) + dec2(month as int),
{
    let mut out = String::new();
    push_four_digits(&mut out, year);
    push_two_digits(&mut out, month);
    proof {
        assert(out@ =~= dec4(year as int) + dec2(month as int));
    }
    out
}

/// The filename of a storage scope: `{period}@{host}.sqlite`.
pub fn scope_filename(period: &str, host: &str) -> (r: String)
    ensures
        r@ == period@ + "@"@ + host@ + ".sqlite"@,
{
    let mut out = String::from_str(period);
    out.append("@");
    out.append(host);
    out.append(".sqlite");
    out
}

/// The one-line confirmation the collector prints after a successful tick.
pub fn collect_message(db_name: &str, ts: &str) -> (r: String)
    ensures
        r@ == "Wrote record into "@ + db_name@ + " at "@ + ts@,
{
    let mut out = String::from_str("Wrote record into ");
    out.append(db_name);
    out.append(" at ");
    out.append(ts);
    out
}

} // verus!
