use vstd::prelude::*;
use vstd::arithmetic::div_mod::{lemma_div_is_ordered, lemma_div_multiples_vanish};
use vstd::arithmetic::mul::lemma_mul_inequality;

verus! {

/// The used share of a capacity, in hundredths of a percent: zero when the
/// reported total is zero (never a division by zero) or when more is
/// available than the total claims.
pub open spec fn used_percent_centi(total: int, avail: int) -> int {
    if total <= 0 {
        0
    } else if avail > total {
        0
    } else {
        (total - avail) * 10000 / total
    }
}

pub proof fn lemma_used_percent_bounds(total: int, avail: int)
    requires
        total >= 0,
        avail >= 0,
    ensures
        0 <= used_percent_centi(total, avail) <= 10000,
{
    if total > 0 && avail <= total {
        let used = total - avail;
        lemma_mul_inequality(used, total, 10000);
        lemma_div_is_ordered(used * 10000, total * 10000, total);
        lemma_div_multiples_vanish(10000, total);
        assert(used * 10000 >= 0) by (nonlinear_arith)
            requires
                used >= 0,
        ;
        assert(used * 10000 / total >= 0) by {
            lemma_div_is_ordered(0, used * 10000, total);
        }
    }
}

/// The memory sample: the used share of total memory in hundredths of a
/// percent, always within the percentage scale, and exactly zero when the
/// reported total memory is zero.
pub fn sample_ram_percent(total: u64, avail: u64) -> (r: u64)
    ensures
        r == used_percent_centi(total as int, avail as int),
        r <= 10000,
        total == 0 ==> r == 0,
{
    proof {
        lemma_used_percent_bounds(total as int, avail as int);
    }
    if total == 0 {
        return 0;
    }
    if avail > total {
        return 0;
    }
    let used = (total - avail) as u128;
    let r = used * 10000 / (total as u128);
    r as u64
}

/// The disk sample for one mount: nothing when the mount reports a total
/// space of zero (the mount is skipped, not an error), else the used share
/// of its space in hundredths of a percent.
pub fn sample_disk_percent(total: u64, avail: u64) -> (r: Option<u64>)
    ensures
        match r {
            Some(v) => total > 0 && v == used_percent_centi(total as int, avail as int) && v
                <= 10000,
            None => total == 0,
        },
{
    if total == 0 {
        None
    } else {
        Some(sample_ram_percent(total, avail))
    }
}

/// A reading clamped onto the percentage scale, in hundredths of a percent.
pub open spec fn clamp_centi(v: int) -> int {
    if v < 0 {
        0
    } else if v > 10000 {
        10000
    } else {
        v
    }
}

/// The CPU sample's guard: a raw reading clamped onto the percentage scale,
/// in hundredths of a percent.
pub fn clamp_percent_centi(v: i64) -> (r: u64)
    ensures
        r == clamp_centi(v as int),
        r <= 10000,
{
    if v < 0 {
        0
    } else if v > 10000 {
        10000
    } else {
        v as u64
    }
}

} // verus!
