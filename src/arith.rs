//! Integer helpers shared by the movement model, the projection and the
//! rasteriser: division that rounds toward zero and clamping.

use vstd::prelude::*;
use vstd::arithmetic::div_mod::{lemma_div_is_ordered, lemma_div_is_ordered_by_denominator, lemma_div_pos_is_pos};

verus! {

/// Absolute value of a mathematical integer.
pub open spec fn magnitude(a: int) -> int {
    if a < 0 { -a } else { a }
}

/// Division rounding toward zero, as Rust's `/` does on signed integers and
/// as a float-to-integer cast does on a quotient. A zero divisor gives zero.
pub open spec fn trunc_div(a: int, b: int) -> int {
    if b == 0 {
        0
    } else {
        let q = magnitude(a) / magnitude(b);
        if (a < 0) != (b < 0) { -q } else { q }
    }
}

/// `v` held inside `[lo, hi]`.
pub open spec fn clamp(v: int, lo: int, hi: int) -> int {
    if v < lo { lo } else if v > hi { hi } else { v }
}

/// The largest magnitude that [`div_toward_zero`] accepts.
pub const DIV_LIMIT: i128 = 0x4000_0000_0000_0000_0000_0000_0000_0000;

/// Divides rounding toward zero.
pub fn div_toward_zero(a: i128, b: i128) -> (r: i128)
    requires
        b != 0,
        -DIV_LIMIT <= a <= DIV_LIMIT,
        -DIV_LIMIT <= b <= DIV_LIMIT,
    ensures
        r == trunc_div(a as int, b as int),
{
    let ua: i128 = if a < 0 { -a } else { a };
    let ub: i128 = if b < 0 { -b } else { b };
    let q: i128 = ua / ub;
    proof {
        lemma_div_pos_is_pos(ua as int, ub as int);
        lemma_div_is_ordered_by_denominator(ua as int, 1, ub as int);
    }
    if (a < 0) != (b < 0) {
        -q
    } else {
        q
    }
}

/// A quotient rounded toward zero is no larger than its dividend.
pub proof fn lemma_trunc_div_shrinks(a: int, b: int)
    requires
        b != 0,
    ensures
        magnitude(trunc_div(a, b)) <= magnitude(a),
{
    lemma_div_pos_is_pos(magnitude(a), magnitude(b));
    lemma_div_is_ordered_by_denominator(magnitude(a), 1, magnitude(b));
}

/// A fraction `n / m` with `0 <= n <= m` of `d`, rounded toward zero, lies
/// between `0` and `d`.
pub proof fn lemma_fraction_between(n: int, m: int, d: int)
    requires
        0 <= n <= m,
        0 < m,
    ensures
        0 <= d ==> 0 <= trunc_div(n * d, m) <= d,
        d < 0 ==> d <= trunc_div(n * d, m) <= 0,
{
    let ad = magnitude(d);
    assert(n * ad <= m * ad) by (nonlinear_arith)
        requires 0 <= n <= m, 0 <= ad;
    assert(0 <= n * ad) by (nonlinear_arith)
        requires 0 <= n, 0 <= ad;
    assert(magnitude(n * d) == n * ad) by (nonlinear_arith)
        requires 0 <= n, ad == magnitude(d);
    lemma_div_is_ordered(n * ad, m * ad, m);
    assert((m * ad) / m == ad) by (nonlinear_arith)
        requires 0 < m;
    lemma_div_pos_is_pos(n * ad, m);
    if n * ad / m > 0 {
        assert(n * d != 0);
        assert((n * d < 0) == (d < 0)) by (nonlinear_arith)
            requires 0 <= n, n * d != 0;
    }
}

/// Holds `v` inside `[lo, hi]`.
pub fn clamp_i128(v: i128, lo: i128, hi: i128) -> (r: i128)
    requires
        lo <= hi,
    ensures
        r == clamp(v as int, lo as int, hi as int),
{
    if v < lo {
        lo
    } else if v > hi {
        hi
    } else {
        v
    }
}

/// A quotient rounded toward zero by a positive `b` is at most `bound` in
/// magnitude when the dividend is at most `bound * b`.
pub proof fn lemma_trunc_div_bound(a: int, b: int, bound: int)
    requires
        0 < b,
        0 <= bound,
        magnitude(a) <= bound * b,
    ensures
        magnitude(trunc_div(a, b)) <= bound,
{
    lemma_div_is_ordered(magnitude(a), bound * b, b);
    assert((bound * b) / b == bound) by (nonlinear_arith)
        requires 0 < b;
    lemma_div_pos_is_pos(magnitude(a), b);
}

} // verus!
