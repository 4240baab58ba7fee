//! Integer facts shared by the fixed-point computations.

use vstd::prelude::*;

verus! {

/// Whether `x` fits in an `i128`.
pub open spec fn in_i128(x: int) -> bool {
    i128::MIN <= x <= i128::MAX
}

/// Division rounding toward zero, as `/` on signed machine integers does.
pub open spec fn trunc_div(a: int, b: int) -> int {
    if a >= 0 {
        a / b
    } else {
        -((-a) / b)
    }
}

/// Remainder of `trunc_div`, with the sign of `a`.
pub open spec fn trunc_rem(a: int, b: int) -> int {
    a - b * trunc_div(a, b)
}

/// A multiple of 1e7 is never `i128::MIN`, which 1e7 does not divide.
pub proof fn lemma_scaled_is_not_min(x: int)
    ensures
        x * 10_000_000 != i128::MIN,
{
    let q: int = -17014118346046923173168730371589;
    assert(i128::MIN == 10_000_000 * q + 5894272);
    if x * 10_000_000 == i128::MIN {
        assert(10_000_000 * (x - q) == 5894272) by (nonlinear_arith)
            requires
                x * 10_000_000 == 10_000_000 * q + 5894272,
        ;
        assert(false) by (nonlinear_arith)
            requires
                10_000_000 * (x - q) == 5894272,
        ;
    }
}

/// Euclidean division of a non-negative dividend never grows its magnitude.
proof fn lemma_euclid_div_bounded(a: int, b: int)
    requires
        b != 0,
        a >= 0,
    ensures
        -a <= a / b <= a,
{
    if b > 0 {
        assert(0 <= a / b <= a) by (nonlinear_arith)
            requires
                b > 0,
                a >= 0,
        ;
    } else {
        vstd::arithmetic::div_mod::lemma_fundamental_div_mod(a, b);
        assert(-a <= a / b <= 0) by (nonlinear_arith)
            requires
                b < 0,
                a >= 0,
                a == b * (a / b) + a % b,
                0 <= a % b < -b,
        ;
    }
}

/// Signed machine division, which rounds toward zero.
pub fn div_trunc(a: i128, b: i128) -> (q: i128)
    requires
        b != 0,
        !(a == i128::MIN && b == -1),
    ensures
        q == trunc_div(a as int, b as int),
{
    proof {
        if a >= 0 {
            lemma_euclid_div_bounded(a as int, b as int);
        } else {
            lemma_euclid_div_bounded(-(a as int), b as int);
            if a == i128::MIN && b < 0 {
                let n: int = -(a as int);
                let d: int = b as int;
                vstd::arithmetic::div_mod::lemma_fundamental_div_mod(n, d);
                let q: int = n / d;
                let r: int = n % d;
                assert(-q < n) by (nonlinear_arith)
                    requires
                        d < -1,
                        n > 1000,
                        n == d * q + r,
                        0 <= r < -d,
                ;
            }
        }
    }
    a / b
}

} // verus!
