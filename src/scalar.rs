//! Integer helpers shared by the vector types.
use vstd::prelude::*;

verus! {

/// `v` is representable as an `i32`.
pub open spec fn in_i32(v: int) -> bool {
    i32::MIN <= v <= i32::MAX
}

/// `v` is representable as an `i64`.
pub open spec fn in_i64(v: int) -> bool {
    i64::MIN <= v <= i64::MAX
}

/// Quotient of `a / b` for `b > 0`, rounded toward zero.
pub open spec fn quot_pos(a: int, b: int) -> int {
    if a >= 0 {
        a / b
    } else {
        -((-a) / b)
    }
}

/// Quotient of `a / b` rounded toward zero, as Rust's `/` computes it on
/// signed integers.
pub open spec fn quot(a: int, b: int) -> int {
    if b > 0 {
        quot_pos(a, b)
    } else {
        -quot_pos(a, -b)
    }
}

/// Dividing by a positive `b` never moves a value away from zero.
pub proof fn lemma_quot_pos_bounds(a: int, b: int)
    requires
        b >= 1,
    ensures
        a >= 0 ==> 0 <= quot_pos(a, b) <= a,
        a < 0 ==> a <= quot_pos(a, b) <= 0,
        b == 1 ==> quot_pos(a, b) == a,
        a < 0 && b >= 2 ==> a < quot_pos(a, b),
{
    let m: int = if a >= 0 { a } else { -a };
    vstd::arithmetic::div_mod::lemma_div_is_ordered_by_denominator(m, 1, b);
    vstd::arithmetic::div_mod::lemma_div_pos_is_pos(m, b);
    assert(m / 1 == m);
    if a < 0 && b >= 2 {
        vstd::arithmetic::div_mod::lemma_div_decreases(m, b);
    }
}

/// Divides `a` by the nonzero `s`, rounding toward zero.
pub fn div_toward_zero(a: i32, s: i32) -> (r: i32)
    requires
        s != 0,
        !(s == -1 && a == i32::MIN),
    ensures
        r == quot(a as int, s as int),
{
    let a64: i64 = a as i64;
    if s > 0 {
        let s64: i64 = s as i64;
        proof {
            lemma_quot_pos_bounds(a as int, s as int);
        }
        (a64 / s64) as i32
    } else {
        let s64: i64 = -(s as i64);
        proof {
            lemma_quot_pos_bounds(a as int, s64 as int);
        }
        let q: i64 = a64 / s64;
        (-q) as i32
    }
}

/// Linear interpolation `b + (a - b) * t`: `t == 0` gives `b`, `t == 1` gives `a`.
pub open spec fn lerp_of(a: int, b: int, t: int) -> int {
    b + (a - b) * t
}

/// Linear interpolation of two values, `b + (a - b) * t`.
///
/// `t == 0` yields `b` and `t == 1` yields `a`; other values of `t`
/// extrapolate along the same line.
pub fn scalar_lerp(a: i32, b: i32, t: i32) -> (r: i32)
    requires
        in_i32(lerp_of(a as int, b as int, t as int)),
    ensures
        r == lerp_of(a as int, b as int, t as int),
{
    let d: i128 = a as i128 - b as i128;
    assert(-0x1_0000_0000 * 0x8000_0000 <= d * t <= 0x1_0000_0000 * 0x8000_0000) by (nonlinear_arith)
        requires
            -0x1_0000_0000 <= d <= 0x1_0000_0000,
            -0x8000_0000 <= t <= 0x8000_0000,
    ;
    let r: i128 = b as i128 + d * t as i128;
    r as i32
}

} // verus!
