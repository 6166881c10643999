use vstd::prelude::*;
use vstd::arithmetic::div_mod::{lemma_div_is_ordered, lemma_div_by_multiple, lemma_div_multiples_vanish};
use vstd::arithmetic::mul::lemma_mul_inequality;

verus! {

/// The fixed-point unit: a value `x` stands for the number `x / ONE`.
pub const ONE: i64 = 1_000_000_000_000;

/// A step whose arithmetic would leave the fixed-point range.
#[derive(Clone, Copy, Debug, PartialEq, Eq)]
pub struct Overflow;

/// The exact value `x` is representable as an `i64`.
pub open spec fn fits(x: int) -> bool {
    i64::MIN <= x <= i64::MAX
}

/// `x` as an `i64` where it is representable.
pub open spec fn narrow(x: int) -> Option<i64> {
    if fits(x) {
        Some(x as i64)
    } else {
        None
    }
}

/// Fixed-point product, rounded toward negative infinity.
pub open spec fn fmul(a: int, b: int) -> int {
    (a * b) / (ONE as int)
}

/// Fixed-point quotient, rounded toward negative infinity (for `b > 0`).
pub open spec fn fdiv(a: int, b: int) -> int {
    (a * ONE) / b
}

/// `v` limited to the interval `[lo, hi]`.
pub open spec fn clamp(v: int, lo: int, hi: int) -> int {
    if v < lo {
        lo
    } else if v > hi {
        hi
    } else {
        v
    }
}

/// Fixed-point product; `None` when it does not fit.
pub fn fx_mul(a: i64, b: i64) -> (r: Option<i64>)
    ensures
        r == narrow(fmul(a as int, b as int)),
{
    proof {
        let (x, y) = (a as int, b as int);
        assert(-0x8000_0000_0000_0000_0000_0000_0000_0000 <= x * y <= 0x4000_0000_0000_0000_0000_0000_0000_0000) by (nonlinear_arith)
            requires
                -0x8000_0000_0000_0000 <= x <= 0x7fff_ffff_ffff_ffff,
                -0x8000_0000_0000_0000 <= y <= 0x7fff_ffff_ffff_ffff,
        ;
    }
    let p: i128 = (a as i128) * (b as i128);
    match p.checked_div_euclid(ONE as i128) {
        Some(q) => {
            if i64::MIN as i128 <= q && q <= i64::MAX as i128 {
                Some(q as i64)
            } else {
                None
            }
        },
        None => None,
    }
}

/// Fixed-point quotient; `None` when it does not fit.
pub fn fx_div(a: i64, b: i64) -> (r: Option<i64>)
    requires
        b > 0,
    ensures
        r == narrow(fdiv(a as int, b as int)),
{
    let one: i128 = ONE as i128;
    assert(one == 1_000_000_000_000);
    let p: i128 = (a as i128) * one;
    match p.checked_div_euclid(b as i128) {
        Some(q) => {
            if i64::MIN as i128 <= q && q <= i64::MAX as i128 {
                Some(q as i64)
            } else {
                None
            }
        },
        None => None,
    }
}

/// Sum; `None` when it does not fit.
pub fn fx_add(a: i64, b: i64) -> (r: Option<i64>)
    ensures
        r == narrow(a + b),
{
    a.checked_add(b)
}

/// Difference; `None` when it does not fit.
pub fn fx_sub(a: i64, b: i64) -> (r: Option<i64>)
    ensures
        r == narrow(a - b),
{
    a.checked_sub(b)
}

/// `r` is the square root of `x`, rounded down.
pub open spec fn is_floor_sqrt(x: int, r: int) -> bool {
    0 <= r && r * r <= x && x < (r + 1) * (r + 1)
}

/// The square root of `x`, rounded down (for `x >= 0`).
pub open spec fn floor_sqrt(x: int) -> int {
    choose|r: int| is_floor_sqrt(x, r)
}

/// A rounded-down square root is unique.
pub proof fn lemma_floor_sqrt_unique(x: int, r: int)
    requires
        is_floor_sqrt(x, r),
    ensures
        floor_sqrt(x) == r,
{
    let s = floor_sqrt(x);
    assert(is_floor_sqrt(x, s));
    if s < r {
        assert((s + 1) * (s + 1) <= r * r) by (nonlinear_arith)
            requires
                0 <= s,
                s + 1 <= r,
        ;
    } else if r < s {
        assert((r + 1) * (r + 1) <= s * s) by (nonlinear_arith)
            requires
                0 <= r,
                r + 1 <= s,
        ;
    }
}

/// The square root of `x`, rounded down.
pub fn isqrt(x: u128) -> (r: u64)
    requires
        x < 0x100_0000_0000_0000_0000_0000_0000,
    ensures
        is_floor_sqrt(x as int, r as int),
        r as int == floor_sqrt(x as int),
{
    let mut lo: u128 = 0;
    let mut hi: u128 = 0x10_0000_0000_0000;
    assert(hi * hi == 0x100_0000_0000_0000_0000_0000_0000);
    while hi - lo > 1
        invariant
            lo < hi <= 0x10_0000_0000_0000,
            lo * lo <= x,
            x < hi * hi,
        decreases hi - lo,
    {
        let mid: u128 = lo + (hi - lo) / 2;
        assert(mid * mid <= 0x100_0000_0000_0000_0000_0000_0000) by (nonlinear_arith)
            requires
                mid <= 0x10_0000_0000_0000,
        ;
        if mid * mid <= x {
            lo = mid;
        } else {
            hi = mid;
        }
    }
    proof {
        assert(is_floor_sqrt(x as int, lo as int));
        lemma_floor_sqrt_unique(x as int, lo as int);
    }
    lo as u64
}

/// A product with a factor in `[0, 1]` lies between zero and the other
/// factor.
pub proof fn lemma_fmul_shrinks(a: int, b: int)
    requires
        0 <= b <= ONE,
    ensures
        a >= 0 ==> 0 <= fmul(a, b) <= a,
        a < 0 ==> a <= fmul(a, b) <= 0,
{
    let one = ONE as int;
    if a >= 0 {
        lemma_mul_inequality(b, one, a);
        assert(0 <= a * b) by (nonlinear_arith)
            requires
                0 <= a,
                0 <= b,
        ;
        assert(b * a == a * b) by (nonlinear_arith);
        assert(one * a == a * one) by (nonlinear_arith);
        lemma_div_is_ordered(0, a * b, one);
        lemma_div_is_ordered(a * b, a * one, one);
        lemma_div_by_multiple(a, one);
    } else {
        assert(a * one <= a * b <= 0) by (nonlinear_arith)
            requires
                a < 0,
                0 <= b <= one,
        ;
        lemma_div_is_ordered(a * b, 0, one);
        lemma_div_is_ordered(a * one, a * b, one);
        assert(one * a == a * one) by (nonlinear_arith);
        lemma_div_multiples_vanish(a, one);
    }
}

} // verus!
