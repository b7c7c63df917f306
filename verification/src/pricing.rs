//! The constant-product pricing rule, stated over mathematical integers.
//!
//! With reserves `reserve_in` and `reserve_out` the pool's invariant is their
//! product. A trade that adds `amount_in` to the input reserve leaves the
//! output reserve at the invariant divided by the new input reserve, rounded
//! down, and pays out the difference.

use vstd::prelude::*;
use vstd::arithmetic::div_mod::{
    lemma_div_by_multiple, lemma_div_is_ordered_by_denominator, lemma_div_pos_is_pos,
    lemma_fundamental_div_mod, lemma_mod_bound,
};
use vstd::arithmetic::mul::{lemma_mul_is_commutative, lemma_mul_strictly_positive};
use crate::error::SwapError;

verus! {

/// The output reserve that remains once `amount_in` has entered the pool.
pub open spec fn reserve_out_after(reserve_in: int, reserve_out: int, amount_in: int) -> int {
    (reserve_in * reserve_out) / (reserve_in + amount_in)
}

/// The amount of the output asset that `amount_in` buys.
pub open spec fn amount_out(reserve_in: int, reserve_out: int, amount_in: int) -> int {
    reserve_out - reserve_out_after(reserve_in, reserve_out, amount_in)
}

/// The answer to a request to trade `amount_in` against the given reserves.
///
/// A negative amount is invalid. An input reserve that would no longer fit in
/// 128 signed bits is an overflow. A trade that would pay out the whole
/// output reserve is refused for want of liquidity.
pub open spec fn quote(reserve_in: int, reserve_out: int, amount_in: int) -> Result<int, SwapError> {
    if amount_in < 0 {
        Err(SwapError::InvalidInput)
    } else if reserve_in + amount_in > i128::MAX {
        Err(SwapError::ArithmeticOverflow)
    } else if amount_out(reserve_in, reserve_out, amount_in) >= reserve_out {
        Err(SwapError::InsufficientLiquidity)
    } else {
        Ok(amount_out(reserve_in, reserve_out, amount_in))
    }
}

/// The remaining output reserve lies between zero and the old one, and the
/// product of the new reserves is the old product less the remainder of the
/// division.
pub proof fn lemma_reserve_out_after(reserve_in: int, reserve_out: int, amount_in: int)
    requires
        0 < reserve_in,
        0 < reserve_out,
        0 <= amount_in,
    ensures
        0 <= reserve_out_after(reserve_in, reserve_out, amount_in) <= reserve_out,
        (reserve_in + amount_in) * reserve_out_after(reserve_in, reserve_out, amount_in)
            == reserve_in * reserve_out - (reserve_in * reserve_out) % (reserve_in + amount_in),
        0 <= (reserve_in * reserve_out) % (reserve_in + amount_in) < reserve_in + amount_in,
        amount_in == 0 ==> reserve_out_after(reserve_in, reserve_out, amount_in) == reserve_out,
{
    let k = reserve_in * reserve_out;
    let d = reserve_in + amount_in;
    lemma_mul_strictly_positive(reserve_in, reserve_out);
    lemma_div_pos_is_pos(k, d);
    lemma_div_is_ordered_by_denominator(k, reserve_in, d);
    lemma_mul_is_commutative(reserve_in, reserve_out);
    lemma_div_by_multiple(reserve_out, reserve_in);
    lemma_fundamental_div_mod(k, d);
    lemma_mod_bound(k, d);
}

/// A larger amount in never buys less: the amount paid out does not
/// decrease as `amount_in` grows, and where the larger trade is quoted the
/// smaller one is quoted too.
pub proof fn lemma_quote_is_monotonic(reserve_in: int, reserve_out: int, smaller: int, larger: int)
    requires
        0 < reserve_in,
        0 < reserve_out,
        0 <= smaller <= larger,
    ensures
        amount_out(reserve_in, reserve_out, smaller) <= amount_out(reserve_in, reserve_out, larger),
        quote(reserve_in, reserve_out, larger) is Ok ==> quote(reserve_in, reserve_out, smaller) is Ok,
        quote(reserve_in, reserve_out, larger) is Ok ==> quote(reserve_in, reserve_out, smaller).unwrap()
            <= quote(reserve_in, reserve_out, larger).unwrap(),
{
    lemma_mul_strictly_positive(reserve_in, reserve_out);
    lemma_div_is_ordered_by_denominator(
        reserve_in * reserve_out,
        reserve_in + smaller,
        reserve_in + larger,
    );
}

/// Rounding down: the quotient times the divisor is the largest multiple of
/// the divisor that does not exceed the dividend.
pub proof fn lemma_floor_bounds(k: int, d: int)
    requires
        0 <= k,
        0 < d,
    ensures
        0 <= k / d,
        (k / d) * d <= k < (k / d + 1) * d,
{
    lemma_div_pos_is_pos(k, d);
    lemma_fundamental_div_mod(k, d);
    lemma_mod_bound(k, d);
    assert((k / d) * d == d * (k / d) && (k / d + 1) * d == d * (k / d) + d) by (nonlinear_arith);
}

/// The drop of the quotient `k / d` over a step of `extra` lies within one of
/// `k * extra / (d * (d + extra))`, on either side.
proof fn lemma_quotient_drop(k: int, d: int, extra: int)
    requires
        0 <= k,
        0 < d,
        0 <= extra,
    ensures
        (k / d - k / (d + extra) - 1) * (d * (d + extra)) < k * extra,
        (k / d - k / (d + extra) + 1) * (d * (d + extra)) > k * extra,
{
    let e = d + extra;
    let q = k / d;
    let p = k / e;
    lemma_floor_bounds(k, d);
    lemma_floor_bounds(k, e);
    assert((q - p - 1) * (d * e) < k * extra) by (nonlinear_arith)
        requires
            q * d <= k,
            k < (p + 1) * e,
            0 < d,
            0 < e,
            extra == e - d,
    {
        assert(q * d * e <= k * e);
        assert(k * d < (p + 1) * e * d);
        assert((q - p - 1) * (d * e) == q * d * e - (p + 1) * e * d);
        assert(k * extra == k * e - k * d);
    }
    assert((q - p + 1) * (d * e) > k * extra) by (nonlinear_arith)
        requires
            k < (q + 1) * d,
            p * e <= k,
            0 < d,
            0 < e,
            extra == e - d,
    {
        assert(k * e < (q + 1) * d * e);
        assert(p * e * d <= k * d);
        assert((q - p + 1) * (d * e) == (q + 1) * d * e - p * e * d);
        assert(k * extra == k * e - k * d);
    }
}

/// What a further `extra` buys diminishes as the trade grows, up to one unit
/// of rounding: on top of a later amount it buys at most one more than on top
/// of an earlier one.
pub proof fn lemma_marginal_output_diminishes(
    reserve_in: int,
    reserve_out: int,
    earlier: int,
    later: int,
    extra: int,
)
    requires
        0 < reserve_in,
        0 < reserve_out,
        0 <= earlier <= later,
        0 <= extra,
    ensures
        amount_out(reserve_in, reserve_out, later + extra) - amount_out(reserve_in, reserve_out, later)
            <= amount_out(reserve_in, reserve_out, earlier + extra) - amount_out(
            reserve_in,
            reserve_out,
            earlier,
        ) + 1,
{
    let k = reserve_in * reserve_out;
    let d1 = reserve_in + earlier;
    let d2 = reserve_in + later;
    lemma_mul_strictly_positive(reserve_in, reserve_out);
    lemma_quotient_drop(k, d1, extra);
    lemma_quotient_drop(k, d2, extra);
    let m1 = k / d1 - k / (d1 + extra) + 1;
    let m2 = k / d2 - k / (d2 + extra) - 1;
    let n1 = d1 * (d1 + extra);
    let n2 = d2 * (d2 + extra);
    let bound = k * extra;
    assert(0 < n1 <= n2) by (nonlinear_arith)
        requires
            0 < d1 <= d2,
            0 <= extra,
            n1 == d1 * (d1 + extra),
            n2 == d2 * (d2 + extra),
    ;
    assert(0 <= bound) by (nonlinear_arith)
        requires
            0 <= k,
            0 <= extra,
            bound == k * extra,
    ;
    assert(m2 < m1) by (nonlinear_arith)
        requires
            m1 * n1 > bound,
            m2 * n2 < bound,
            0 <= bound,
            0 < n1 <= n2,
    {
        if m2 >= m1 {
            assert(m1 > 0);
            assert(m2 * n2 >= m1 * n2);
            assert(m1 * n2 >= m1 * n1);
        }
    }
}

/// One trade buys no more than its two parts would, each quoted on the same
/// reserves: splitting an amount is never worse for the trader's quote.
pub proof fn lemma_quote_is_subadditive(reserve_in: int, reserve_out: int, first: int, second: int)
    requires
        0 < reserve_in,
        0 < reserve_out,
        0 <= first,
        0 <= second,
    ensures
        amount_out(reserve_in, reserve_out, first + second) <= amount_out(reserve_in, reserve_out, first)
            + amount_out(reserve_in, reserve_out, second),
{
    let r = reserve_in;
    let k = reserve_in * reserve_out;
    let a = reserve_in + first;
    let b = reserve_in + second;
    let c = reserve_in + first + second;
    lemma_mul_strictly_positive(reserve_in, reserve_out);
    lemma_floor_bounds(k, a);
    lemma_floor_bounds(k, b);
    lemma_floor_bounds(k, c);
    let qa = k / a;
    let qb = k / b;
    let qc = k / c;
    let m = qa + qb - reserve_out;
    let ab = a * b;
    assert(0 < ab) by (nonlinear_arith)
        requires
            0 < a,
            0 < b,
            ab == a * b,
    ;
    // The two quotients, scaled by both divisors, stay under the scaled invariant.
    assert(m * ab <= reserve_out * (r * r - first * second)) by (nonlinear_arith)
        requires
            qa * a <= k,
            qb * b <= k,
            0 < a,
            0 < b,
            ab == a * b,
            m == qa + qb - reserve_out,
            k == r * reserve_out,
            a == r + first,
            b == r + second,
    {
        assert(qa * a * b <= k * b);
        assert(qb * b * a <= k * a);
        assert(m * ab == qa * a * b + qb * b * a - reserve_out * (a * b));
        assert(k * b + k * a - reserve_out * (a * b) == reserve_out * (r * r - first * second));
    }
    assert((r * r - first * second) * c <= r * ab) by (nonlinear_arith)
        requires
            0 < r,
            0 <= first,
            0 <= second,
            a == r + first,
            b == r + second,
            c == r + first + second,
            ab == a * b,
    {
        assert(r * ab - (r * r - first * second) * c == first * second * (2 * r + first + second));
        assert(first * second * (2 * r + first + second) >= 0);
    }
    assert(m * c <= k) by (nonlinear_arith)
        requires
            m * ab <= reserve_out * (r * r - first * second),
            (r * r - first * second) * c <= r * ab,
            0 < ab,
            0 < c,
            0 < reserve_out,
            0 <= k,
            k == r * reserve_out,
    {
        if m > 0 {
            assert(m * ab * c <= reserve_out * (r * r - first * second) * c);
            assert(reserve_out * ((r * r - first * second) * c) <= reserve_out * (r * ab));
            assert(reserve_out * (r * r - first * second) * c == reserve_out * ((r * r - first
                * second) * c));
            assert(reserve_out * (r * ab) == k * ab);
            assert((m * c) * ab == m * ab * c);
            assert((m * c) * ab <= k * ab);
        }
    }
    assert(m <= qc) by (nonlinear_arith)
        requires
            m * c <= k,
            k < (qc + 1) * c,
            0 < c,
    ;
}

} // verus!
