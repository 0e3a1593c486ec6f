use vstd::arithmetic::div_mod::{
    lemma_div_by_multiple, lemma_div_is_ordered, lemma_fundamental_div_mod,
    lemma_hoist_over_denominator,
};
use vstd::prelude::*;

verus! {

/// The share of a `total` energy pool owed to a member holding `percent`
/// of it: `floor(total * percent / 100)`. Both arguments are non-negative
/// wherever the library applies this, so flooring and truncating toward
/// zero coincide.
pub open spec fn proportional_share(total: int, percent: int) -> int {
    total * percent / 100
}

/// Splitting the numerator at the divisor keeps the quotient:
/// `floor(t * p / 100)` equals the share of the full hundreds of `t`
/// plus the share of the remainder.
proof fn lemma_share_split(t: int, p: int)
    requires
        t >= 0,
        p >= 0,
    ensures
        (t / 100) * p + (t % 100) * p / 100 == proportional_share(t, p),
{
    let q = t / 100;
    let r = t % 100;
    lemma_fundamental_div_mod(t, 100);
    assert(r * p + (q * p) * 100 == t * p) by (nonlinear_arith)
        requires t == 100 * q + r;
    lemma_hoist_over_denominator(r * p, q * p, 100nat);
}

/// The share never exceeds the pool: with `percent` at most one hundred,
/// `floor(t * p / 100) <= t`, and it is never negative.
pub proof fn lemma_share_bounds(t: int, p: int)
    requires
        t >= 0,
        0 <= p <= 100,
    ensures
        0 <= proportional_share(t, p) <= t,
{
    assert(0 <= t * p <= t * 100) by (nonlinear_arith)
        requires t >= 0 && 0 <= p <= 100;
    lemma_div_is_ordered(0, t * p, 100);
    lemma_div_is_ordered(t * p, t * 100, 100);
    lemma_div_by_multiple(t, 100);
}

/// Computes `floor(total * percent / 100)` without the intermediate product
/// `total * percent`, which need not fit in an `i128`; the result itself
/// always does, since it never exceeds `total`.
pub fn compute_share(total: i128, percent: u32) -> (r: i128)
    requires
        0 <= total,
        percent <= 100,
    ensures
        r as int == proportional_share(total as int, percent as int),
        0 <= r <= total,
{
    let p = percent as i128;
    let q = total / 100;
    let rem = total % 100;
    proof {
        let t = total as int;
        lemma_fundamental_div_mod(t, 100);
        assert(0 <= q * p <= q * 100) by (nonlinear_arith)
            requires q >= 0 && 0 <= p <= 100;
        assert(0 <= rem * p <= rem * 100) by (nonlinear_arith)
            requires rem >= 0 && 0 <= p <= 100;
        lemma_div_is_ordered(0, rem * p, 100);
        lemma_div_is_ordered(rem * p, rem * 100, 100);
        lemma_div_by_multiple(rem as int, 100);
        lemma_share_split(t, p as int);
        lemma_share_bounds(t, p as int);
    }
    q * p + (rem * p) / 100
}

} // verus!
