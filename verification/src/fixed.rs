//! Fixed-point scales and the integer arithmetic shared by the geometry and
//! tensor modules.
//!
//! Every real quantity is held as an integer count of a fixed unit, so that
//! each operation has one exact, machine-independent result.

use vstd::arithmetic::div_mod::lemma_fundamental_div_mod_converse;
use vstd::prelude::*;

verus! {

/// Coordinate units per pixel: positions and lengths are counted in
/// ten-thousandths of a pixel.
pub const PX: i64 = 10_000;

/// Units per one in a dimensionless factor (rotation entries, scales).
pub const FRAC: i64 = 1_000_000;

/// Sample units per one: a sample `v` stands for the real value `v / UNIT`.
/// The unit is a multiple of 255, so every byte level divides evenly.
pub const UNIT: i32 = 65_280;

/// `a / b` rounded toward negative infinity.
pub fn floor_div(a: i128, b: i128) -> (q: i128)
    requires
        b > 0,
    ensures
        q == a / b,
{
    if a >= 0 {
        a / b
    } else {
        let m: i128 = -(a + 1);
        let k: i128 = m / b;
        proof {
            let r = m as int % b as int;
            assert(m as int == (m as int / b as int) * b + r && 0 <= r < b) by (nonlinear_arith)
                requires
                    m >= 0,
                    b > 0,
                    r == m as int % b as int,
            ;
            assert(a as int == (-k - 1) * b + (b - 1 - r)) by (nonlinear_arith)
                requires
                    m as int == k * b + r,
                    m == -(a + 1),
            ;
            lemma_fundamental_div_mod_converse(a as int, b as int, -k - 1, b - 1 - r);
        }
        -k - 1
    }
}

/// A quotient lies between two bounds when the dividend lies between the
/// lower bound's multiple of the divisor and the multiple after the upper's.
pub proof fn lemma_div_between(num: int, d: int, lo: int, hi: int)
    requires
        d > 0,
        lo * d <= num < (hi + 1) * d,
    ensures
        lo <= num / d <= hi,
{
    let q = num / d;
    let r = num % d;
    assert(num == q * d + r && 0 <= r < d) by (nonlinear_arith)
        requires
            d > 0,
            q == num / d,
            r == num % d,
    ;
    assert(lo <= q) by (nonlinear_arith)
        requires
            d > 0,
            lo * d <= num,
            num == q * d + r,
            r < d,
    ;
    assert(q <= hi) by (nonlinear_arith)
        requires
            d > 0,
            num < (hi + 1) * d,
            num == q * d + r,
            0 <= r,
    ;
}

/// A product is bounded by the product of its factors' bounds.
pub proof fn lemma_mul_bound(a: int, b: int, ba: int, bb: int)
    requires
        -ba <= a <= ba,
        -bb <= b <= bb,
    ensures
        -(ba * bb) <= a * b <= ba * bb,
{
    assert(-(ba * bb) <= a * b <= ba * bb) by (nonlinear_arith)
        requires
            -ba <= a <= ba,
            -bb <= b <= bb,
    ;
}

/// The value of `v` limited to the range of a sample.
pub open spec fn clamp_sample(v: int) -> int {
    if v < i32::MIN {
        i32::MIN as int
    } else if v > i32::MAX {
        i32::MAX as int
    } else {
        v
    }
}

/// Limits `v` to the range of a sample.
pub fn saturate(v: i128) -> (r: i32)
    ensures
        r == clamp_sample(v as int),
{
    if v < i32::MIN as i128 {
        i32::MIN
    } else if v > i32::MAX as i128 {
        i32::MAX
    } else {
        v as i32
    }
}

} // verus!
