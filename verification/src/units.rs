//! Lengths in millipoints and the saturating arithmetic that layout uses.

use vstd::prelude::*;

verus! {

/// Millipoints in one point.
pub const UNITS_PER_POINT: i64 = 1000;

/// The length nearest to `v` that an `i64` can hold.
pub open spec fn clamp(v: int) -> int {
    if v < i64::MIN {
        i64::MIN as int
    } else if v > i64::MAX {
        i64::MAX as int
    } else {
        v
    }
}

/// Half of `v`, rounded toward zero.
pub open spec fn half_of(v: int) -> int {
    if v >= 0 {
        v / 2
    } else {
        -((-v) / 2)
    }
}

/// `v * num / den` rounded toward zero, for `den > 0` and `num >= 0`.
pub open spec fn scaled(v: int, num: int, den: int) -> int {
    if v >= 0 {
        (v * num) / den
    } else {
        -(((-v) * num) / den)
    }
}

/// Millimetres to points: a factor of 2.83465, rounded toward zero.
pub open spec fn mm_to_pt_spec(mm: int) -> int {
    clamp(scaled(mm, 283465, 100000))
}

fn narrow(v: i128) -> (r: i64)
    ensures
        r == clamp(v as int),
{
    if v < -9223372036854775808i128 {
        i64::MIN
    } else if v > 9223372036854775807i128 {
        i64::MAX
    } else {
        v as i64
    }
}

/// Sum of two lengths, held at the ends of the range.
pub fn sat_add(a: i64, b: i64) -> (r: i64)
    ensures
        r == clamp(a + b),
{
    narrow(a as i128 + b as i128)
}

/// Difference of two lengths, held at the ends of the range.
pub fn sat_sub(a: i64, b: i64) -> (r: i64)
    ensures
        r == clamp(a - b),
{
    narrow(a as i128 - b as i128)
}

/// The larger of two lengths.
pub fn larger(a: i64, b: i64) -> (r: i64)
    ensures
        r == if a >= b { a } else { b },
{
    if a >= b {
        a
    } else {
        b
    }
}

/// Half of a length, rounded toward zero.
pub fn half(v: i64) -> (r: i64)
    ensures
        r == half_of(v as int),
{
    if v >= 0 {
        v / 2
    } else {
        let p: i128 = -(v as i128);
        let h: i128 = p / 2;
        (-h) as i64
    }
}

/// `v * num / den`, rounded toward zero and held at the ends of the range.
pub fn scale(v: i64, num: u32, den: u32) -> (r: i64)
    requires
        den > 0,
    ensures
        r == clamp(scaled(v as int, num as int, den as int)),
{
    if v >= 0 {
        assert(0 <= (v as int) * (num as int) <= 0x7fff_ffff_ffff_ffff * 0xffff_ffff)
            by (nonlinear_arith)
            requires
                0 <= v <= 0x7fff_ffff_ffff_ffff,
                0 <= num <= 0xffff_ffff,
        ;
        let p: i128 = (v as i128) * (num as i128);
        narrow(p / (den as i128))
    } else {
        let m: i128 = -(v as i128);
        assert(0 <= (m as int) * (num as int) <= 0x8000_0000_0000_0000 * 0xffff_ffff)
            by (nonlinear_arith)
            requires
                0 <= m <= 0x8000_0000_0000_0000,
                0 <= num <= 0xffff_ffff,
        ;
        let p: i128 = m * (num as i128);
        let q: i128 = p / (den as i128);
        narrow(-q)
    }
}

/// Millimetres to points, both in thousandths.
pub fn mm_to_pt(mm: i64) -> (r: i64)
    ensures
        r == mm_to_pt_spec(mm as int),
{
    scale(mm, 283465, 100000)
}

} // verus!
