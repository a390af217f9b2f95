//! Integer arithmetic behind the boundary samplers.
//!
//! Every shape is sampled at [`SAMPLES`] boundary points, [`QUARTER`] to each
//! quarter of the boundary: one edge of a rectangle, one quadrant of a circle.
//! Offsets from a shape's anchor are fractions of one of its sizes, rounded
//! toward zero, so a sample never leaves the shape it was taken from.

use vstd::prelude::*;

verus! {

/// Number of boundary samples taken of every shape.
pub const SAMPLES: usize = 36;

/// Number of samples on one quarter of a boundary.
pub const QUARTER: usize = 9;

/// Denominator of the direction table: [`unit_cos`] is in parts of `UNIT`.
pub const UNIT: i64 = 1000000;

/// The fraction `num / den` of `len`, rounded toward zero.
pub open spec fn scaled(len: int, num: int, den: int) -> int {
    if len >= 0 {
        (len * num) / den
    } else {
        -((-len * num) / den)
    }
}

/// The cosine of `10 * k` degrees in parts of [`UNIT`], rounded down, for
/// `k` from 0 to 9. The sine of that angle is `unit_cos(9 - k)`.
pub open spec fn unit_cos(k: int) -> int {
    if k == 0 {
        1000000
    } else if k == 1 {
        984807
    } else if k == 2 {
        939692
    } else if k == 3 {
        866025
    } else if k == 4 {
        766044
    } else if k == 5 {
        642787
    } else if k == 6 {
        500000
    } else if k == 7 {
        342020
    } else if k == 8 {
        173648
    } else {
        0
    }
}

/// A scaled length keeps the sign of the length and is no longer than it.
pub proof fn lemma_scaled_bounds(len: int, num: int, den: int)
    requires
        0 <= num <= den,
        0 < den,
    ensures
        len >= 0 ==> 0 <= scaled(len, num, den) <= len,
        len <= 0 ==> len <= scaled(len, num, den) <= 0,
        num == 0 ==> scaled(len, num, den) == 0,
        num == den ==> scaled(len, num, den) == len,
{
    let m: int = if len >= 0 { len } else { -len };
    assert(0 <= (m * num) / den <= m) by (nonlinear_arith)
        requires
            0 <= m,
            0 <= num <= den,
            0 < den,
    ;
    assert(num == den ==> (m * num) / den == m) by (nonlinear_arith)
        requires
            0 < den,
    ;
}

/// The table holds a cosine and the matching sine: both lie between 0 and
/// [`UNIT`], and the vector they form is not longer than `UNIT`.
pub proof fn lemma_unit_cos_bounds(k: int)
    requires
        0 <= k <= QUARTER,
    ensures
        0 <= unit_cos(k) <= UNIT,
        0 <= unit_cos(QUARTER - k) <= UNIT,
        unit_cos(k) * unit_cos(k) + unit_cos(QUARTER - k) * unit_cos(QUARTER - k) <= UNIT * UNIT,
{
}

/// Two offsets scaled by a table entry and its partner stay inside the circle
/// of radius `len` around the origin.
pub proof fn lemma_scaled_in_disc(len: int, c: int, s: int)
    requires
        0 <= len,
        0 <= c <= UNIT,
        0 <= s <= UNIT,
        c * c + s * s <= UNIT * UNIT,
    ensures
        scaled(len, c, UNIT as int) * scaled(len, c, UNIT as int) + scaled(len, s, UNIT as int)
            * scaled(len, s, UNIT as int) <= len * len,
{
    let u: int = UNIT as int;
    let a: int = (len * c) / u;
    let b: int = (len * s) / u;
    assert((a * u) * (a * u) <= (len * c) * (len * c)) by (nonlinear_arith)
        requires
            0 <= a * u <= len * c,
    ;
    assert((b * u) * (b * u) <= (len * s) * (len * s)) by (nonlinear_arith)
        requires
            0 <= b * u <= len * s,
    ;
    assert((a * a + b * b) * (u * u) == (a * u) * (a * u) + (b * u) * (b * u))
        by (nonlinear_arith);
    assert((len * c) * (len * c) + (len * s) * (len * s) == (len * len) * (c * c + s * s))
        by (nonlinear_arith);
    assert((len * len) * (c * c + s * s) <= (len * len) * (u * u)) by (nonlinear_arith)
        requires
            c * c + s * s <= u * u,
    ;
}

/// Computes [`scaled`] for a length that fits 32 bits.
pub(crate) fn scale(len: i32, num: i64, den: i64) -> (part: i64)
    requires
        0 <= num <= den,
        0 < den <= UNIT,
    ensures
        part == scaled(len as int, num as int, den as int),
        len >= 0 ==> 0 <= part <= len,
        len <= 0 ==> len <= part <= 0,
{
    proof {
        lemma_scaled_bounds(len as int, num as int, den as int);
    }
    let size: i64 = if len >= 0 {
        len as i64
    } else {
        -(len as i64)
    };
    assert(0 <= size * num <= 0x8000_0000 * 1000000) by (nonlinear_arith)
        requires
            0 <= size <= 0x8000_0000,
            0 <= num <= 1000000,
    ;
    let part: i64 = (size * num) / den;
    if len >= 0 {
        part
    } else {
        -part
    }
}

/// Looks up [`unit_cos`].
pub(crate) fn unit_cos_at(k: usize) -> (c: i64)
    requires
        k <= QUARTER,
    ensures
        c == unit_cos(k as int),
        0 <= c <= UNIT,
{
    if k == 0 {
        1000000
    } else if k == 1 {
        984807
    } else if k == 2 {
        939692
    } else if k == 3 {
        866025
    } else if k == 4 {
        766044
    } else if k == 5 {
        642787
    } else if k == 6 {
        500000
    } else if k == 7 {
        342020
    } else if k == 8 {
        173648
    } else {
        0
    }
}

} // verus!
