//! Exact integer arithmetic helpers: magnitude, truncating division, and the
//! bounds lemmas the collision solver needs.

use vstd::prelude::*;

verus! {

/// Magnitude (absolute value) of a mathematical integer.
pub open spec fn mag(a: int) -> int {
    if a >= 0 {
        a
    } else {
        -a
    }
}

/// Quotient of `a` by a positive `b`, rounded toward zero, matching the
/// behaviour of hardware signed division.
pub open spec fn div_trunc(a: int, b: int) -> int {
    if a >= 0 {
        a / b
    } else {
        -((-a) / b)
    }
}

/// Division by a positive divisor preserves order against a multiple.
pub proof fn lemma_div_le(a: int, b: int, k: int)
    requires
        b > 0,
        0 <= a,
        a <= k * b,
    ensures
        0 <= a / b <= k,
{
    vstd::arithmetic::div_mod::lemma_fundamental_div_mod(a, b);
    vstd::arithmetic::div_mod::lemma_mod_division_less_than_divisor(a, b);
    assert(b * (a / b) <= k * b);
    assert(a / b <= k) by (nonlinear_arith)
        requires
            b > 0,
            b * (a / b) <= k * b,
    ;
    assert(a / b >= 0) by (nonlinear_arith)
        requires
            b > 0,
            0 <= a,
            a == b * (a / b) + a % b,
            0 <= a % b < b,
    ;
}

/// A truncating quotient is no larger in magnitude than the corresponding
/// multiple of the divisor allows.
pub proof fn lemma_div_trunc_bound(a: int, b: int, k: int)
    requires
        b > 0,
        0 <= k,
        mag(a) <= k * b,
    ensures
        mag(div_trunc(a, b)) <= k,
{
    if a >= 0 {
        lemma_div_le(a, b, k);
    } else {
        lemma_div_le(-a, b, k);
    }
}

/// Truncating division inverts multiplication exactly.
pub proof fn lemma_div_trunc_exact(m: int, b: int)
    requires
        b > 0,
    ensures
        div_trunc(m * b, b) == m,
{
    if m >= 0 {
        vstd::arithmetic::div_mod::lemma_div_multiples_vanish(m, b);
        assert(m * b == b * m) by (nonlinear_arith);
    } else {
        vstd::arithmetic::div_mod::lemma_div_multiples_vanish(-m, b);
        assert(-(m * b) == b * -m) by (nonlinear_arith);
    }
}

/// Truncating quotient of an `i128` by a positive `i128`, computed through
/// unsigned division so its behaviour is pinned to `div_trunc`.
pub fn div_trunc_i128(a: i128, b: i128) -> (q: i128)
    requires
        b > 0,
        a > i128::MIN,
    ensures
        q as int == div_trunc(a as int, b as int),
{
    if a >= 0 {
        let qa = (a as u128) / (b as u128);
        proof {
            assert(a as int <= (a as int) * (b as int)) by (nonlinear_arith)
                requires
                    0 <= a as int,
                    1 <= b as int,
            ;
            lemma_div_le(a as int, b as int, a as int);
        }
        qa as i128
    } else {
        let na = (-a) as u128;
        let qa = na / (b as u128);
        proof {
            assert(na as int <= (na as int) * (b as int)) by (nonlinear_arith)
                requires
                    0 <= na as int,
                    1 <= b as int,
            ;
            lemma_div_le(na as int, b as int, na as int);
        }
        -(qa as i128)
    }
}

} // verus!
