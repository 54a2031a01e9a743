//! Fixed-point scalar arithmetic.
//!
//! A fixed-point value stores `SCALE` units per meter (for ground
//! coordinates) or per pixel (for image coordinates).  Intermediate products
//! are taken in `i128`, where products of two `i64` values cannot overflow;
//! divisions truncate toward zero, as `i128` division does.

use vstd::prelude::*;

verus! {

/// Fixed-point units per meter (and per pixel for sub-pixel coordinates).
pub const SCALE: i64 = 1_000_000;

/// Largest admissible magnitude of a ground coordinate (1000 m).
pub const COORD_LIMIT: i64 = 1_000_000_000;

/// Truncating (round-toward-zero) quotient, for a positive divisor.
pub open spec fn div_trunc(x: int, d: int) -> int {
    if x >= 0 {
        x / d
    } else {
        -((-x) / d)
    }
}

/// The quotient of a truncating division is no larger in magnitude than the
/// dividend.
pub proof fn lemma_div_trunc_bound(x: int, d: int, b: int)
    requires
        d >= 1,
        -b <= x <= b,
        0 <= b,
    ensures
        -b <= div_trunc(x, d) <= b,
        x >= 0 ==> 0 <= div_trunc(x, d),
        x <= 0 ==> div_trunc(x, d) <= 0,
{
    if x >= 0 {
        vstd::arithmetic::div_mod::lemma_div_pos_is_pos(x, d);
        vstd::arithmetic::div_mod::lemma_div_nonincreasing(x, d);
        vstd::arithmetic::div_mod::lemma_div_is_ordered(x, b, d);
        vstd::arithmetic::div_mod::lemma_div_nonincreasing(b, d);
    } else {
        vstd::arithmetic::div_mod::lemma_div_pos_is_pos(-x, d);
        vstd::arithmetic::div_mod::lemma_div_nonincreasing(-x, d);
        vstd::arithmetic::div_mod::lemma_div_is_ordered(-x, b, d);
        vstd::arithmetic::div_mod::lemma_div_nonincreasing(b, d);
    }
}

/// A dividend within `k` multiples of a positive divisor has a quotient
/// within `k`.
pub proof fn lemma_div_trunc_le_mul(n: int, d: int, k: int)
    requires
        d >= 1,
        0 <= k,
        -(k * d) <= n <= k * d,
    ensures
        -k <= div_trunc(n, d) <= k,
{
    vstd::arithmetic::div_mod::lemma_div_by_multiple(k, d);
    if n >= 0 {
        vstd::arithmetic::div_mod::lemma_div_pos_is_pos(n, d);
        vstd::arithmetic::div_mod::lemma_div_is_ordered(n, k * d, d);
    } else {
        vstd::arithmetic::div_mod::lemma_div_pos_is_pos(-n, d);
        vstd::arithmetic::div_mod::lemma_div_is_ordered(-n, k * d, d);
    }
}

/// Bound on a product from bounds on its factors.
pub proof fn lemma_mul_bound(a: int, b: int, aa: int, bb: int)
    requires
        -aa <= a <= aa,
        -bb <= b <= bb,
        0 <= aa,
        0 <= bb,
    ensures
        -(aa * bb) <= a * b <= aa * bb,
{
    assert(-(aa * bb) <= a * b <= aa * bb) by (nonlinear_arith)
        requires
            -aa <= a <= aa,
            -bb <= b <= bb,
            0 <= aa,
            0 <= bb,
    ;
}

/// Truncating division of `i128` values with a positive divisor.
pub fn div_i128(a: i128, b: i128) -> (q: i128)
    requires
        b >= 1,
    ensures
        q == div_trunc(a as int, b as int),
        a >= 0 ==> 0 <= q <= a,
        a <= 0 ==> a <= q <= 0,
{
    proof {
        if a >= 0 {
            lemma_div_trunc_bound(a as int, b as int, a as int);
        } else {
            lemma_div_trunc_bound(a as int, b as int, -(a as int));
        }
    }
    match a.checked_div(b) {
        Some(q) => q,
        None => {
            proof {
                assert(false);
            }
            0
        },
    }
}

/// Product of two `i64`-range values, exact in `i128`.
pub fn mul_i128(a: i128, b: i128) -> (p: i128)
    requires
        i64::MIN <= a <= i64::MAX,
        i64::MIN <= b <= i64::MAX,
    ensures
        p == a * b,
{
    proof {
        lemma_mul_bound(a as int, b as int, 0x8000_0000_0000_0000, 0x8000_0000_0000_0000);
    }
    a * b
}

} // verus!
