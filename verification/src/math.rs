//! Fixed-point scalars and the small geometric value types the pipeline
//! works on: vectors, points, rotations and the axis-aligned boxes used as
//! bounding volumes.

use vstd::arithmetic::div_mod::{lemma_div_is_ordered, lemma_div_multiples_vanish, lemma_div_pos_is_pos};
use vstd::arithmetic::mul::lemma_mul_inequality;
use vstd::prelude::*;

verus! {

/// Number of fixed-point steps per unit: all scalars in this crate count
/// millionths of a unit.
pub const ONE: i64 = 1_000_000;

/// Largest coordinate magnitude a valid position may have. Together with
/// [`MAX_RADIUS`] it is chosen so that the squared center distance of any
/// two valid entities still fits in a 64-bit scalar.
pub const MAX_COORD: i64 = 500_000_000;

/// Largest radius a collision primitive may have.
pub const MAX_RADIUS: i64 = 100_000_000;

/// A three-component vector (translation, scale, velocity, contact normal).
#[derive(Clone, Copy, PartialEq, Eq, Structural, Debug)]
pub struct Vector3 {
    /// First component.
    pub x: i64,
    /// Second component.
    pub y: i64,
    /// Third component.
    pub z: i64,
}

/// A planar point, the 2D position representation.
#[derive(Clone, Copy, PartialEq, Eq, Structural, Debug)]
pub struct Point2 {
    /// First coordinate.
    pub x: i64,
    /// Second coordinate.
    pub y: i64,
}

/// A spatial point, the 3D position representation.
#[derive(Clone, Copy, PartialEq, Eq, Structural, Debug)]
pub struct Point3 {
    /// First coordinate.
    pub x: i64,
    /// Second coordinate.
    pub y: i64,
    /// Third coordinate.
    pub z: i64,
}

/// A planar rotation, stored as the cosine and sine of its angle
/// (the first column of its 2x2 rotation matrix), both scaled by [`ONE`].
#[derive(Clone, Copy, PartialEq, Eq, Structural, Debug)]
pub struct Rotation2 {
    /// Cosine of the rotation angle, scaled by [`ONE`].
    pub c: i64,
    /// Sine of the rotation angle, scaled by [`ONE`].
    pub s: i64,
}

/// A rotation quaternion, components scaled by [`ONE`].
#[derive(Clone, Copy, PartialEq, Eq, Structural, Debug)]
pub struct Quaternion {
    /// Scalar part.
    pub s: i64,
    /// First vector component.
    pub x: i64,
    /// Second vector component.
    pub y: i64,
    /// Third vector component.
    pub z: i64,
}

/// A row-major 3x3 matrix, entries scaled by [`ONE`]; used as the
/// intermediate form when embedding a planar rotation into space.
#[derive(Clone, Copy, PartialEq, Eq, Structural, Debug)]
pub struct Matrix3 {
    /// Row 0, column 0.
    pub m00: i64,
    /// Row 0, column 1.
    pub m01: i64,
    /// Row 0, column 2.
    pub m02: i64,
    /// Row 1, column 0.
    pub m10: i64,
    /// Row 1, column 1.
    pub m11: i64,
    /// Row 1, column 2.
    pub m12: i64,
    /// Row 2, column 0.
    pub m20: i64,
    /// Row 2, column 1.
    pub m21: i64,
    /// Row 2, column 2.
    pub m22: i64,
}

impl Vector3 {
    /// True when every component has magnitude at most `m`.
    pub open spec fn bounded(self, m: int) -> bool {
        &&& -m <= self.x <= m
        &&& -m <= self.y <= m
        &&& -m <= self.z <= m
    }
}

impl Point2 {
    /// True when both coordinates have magnitude at most `m`.
    pub open spec fn bounded(self, m: int) -> bool {
        &&& -m <= self.x <= m
        &&& -m <= self.y <= m
    }
}

impl Point3 {
    /// True when every coordinate has magnitude at most `m`.
    pub open spec fn bounded(self, m: int) -> bool {
        &&& -m <= self.x <= m
        &&& -m <= self.y <= m
        &&& -m <= self.z <= m
    }
}

impl Rotation2 {
    /// A planar rotation is valid when cosine and sine lie in `[-ONE, ONE]`.
    pub open spec fn valid(self) -> bool {
        &&& -ONE <= self.c <= ONE
        &&& -ONE <= self.s <= ONE
    }
}

impl Quaternion {
    /// A rotation quaternion is valid when every component lies in
    /// `[-ONE, ONE]`.
    pub open spec fn valid(self) -> bool {
        &&& -ONE <= self.s <= ONE
        &&& -ONE <= self.x <= ONE
        &&& -ONE <= self.y <= ONE
        &&& -ONE <= self.z <= ONE
    }

    /// The identity rotation.
    pub fn identity() -> (r: Quaternion)
        ensures
            r == (Quaternion { s: ONE, x: 0, y: 0, z: 0 }),
    {
        Quaternion { s: ONE, x: 0, y: 0, z: 0 }
    }
}

/// `x` pushed into `[lo, hi]`.
pub open spec fn spec_clamp(x: int, lo: int, hi: int) -> int {
    if x < lo {
        lo
    } else if x > hi {
        hi
    } else {
        x
    }
}

/// Clamp `x` into `[lo, hi]`.
pub fn clamp64(x: i64, lo: i64, hi: i64) -> (r: i64)
    requires
        lo <= hi,
    ensures
        r == spec_clamp(x as int, lo as int, hi as int),
{
    if x < lo {
        lo
    } else if x > hi {
        hi
    } else {
        x
    }
}

/// `a * b / d`, rounded toward zero; `b` must be non-negative and `d`
/// positive, so only non-negative quantities are ever divided.
pub open spec fn spec_muldiv(a: int, b: int, d: int) -> int {
    if a >= 0 {
        (a * b) / d
    } else {
        -(((-a) * b) / d)
    }
}

/// Multiply then divide, rounding toward zero.
pub fn muldiv(a: i64, b: i64, d: i64) -> (r: i64)
    requires
        0 <= b,
        0 < d,
        -0x4000_0000_0000_0000 <= a,
        -0x4000_0000_0000_0000 <= a * b <= 0x4000_0000_0000_0000,
    ensures
        r == spec_muldiv(a as int, b as int, d as int),
        a >= 0 ==> 0 <= r,
        a < 0 ==> r <= 0,
        b <= d ==> (if a >= 0 { r <= a } else { a <= r }),
        -d <= a <= d ==> -b <= r <= b,
{
    proof {
        lemma_muldiv_props(a as int, b as int, d as int);
        assert((-(a as int)) * b == -((a as int) * b)) by (nonlinear_arith);
    }
    if a >= 0 {
        (a * b) / d
    } else {
        -(((-a) * b) / d)
    }
}

/// Bounds of [`spec_muldiv`]: the result keeps the sign of `a`, and shrinks
/// in magnitude whenever `b <= d`.
pub proof fn lemma_muldiv_props(a: int, b: int, d: int)
    requires
        0 <= b,
        0 < d,
    ensures
        a >= 0 ==> 0 <= spec_muldiv(a, b, d),
        a < 0 ==> spec_muldiv(a, b, d) <= 0,
        b <= d && a >= 0 ==> spec_muldiv(a, b, d) <= a,
        b <= d && a < 0 ==> a <= spec_muldiv(a, b, d),
        -d <= a <= d ==> -b <= spec_muldiv(a, b, d) <= b,
{
    if a >= 0 {
        lemma_mul_inequality(0, a, b);
        lemma_div_pos_is_pos(a * b, d);
        if b <= d {
            lemma_mul_inequality(b, d, a);
            assert(a * b == b * a) by (nonlinear_arith);
            assert(a * d == d * a) by (nonlinear_arith);
            lemma_div_is_ordered(a * b, a * d, d);
            lemma_div_multiples_vanish(a, d);
        }
        if a <= d {
            lemma_mul_inequality(a, d, b);
            assert(a * b == b * a) by (nonlinear_arith);
            assert(d * b == b * d) by (nonlinear_arith);
            lemma_div_is_ordered(a * b, d * b, d);
            lemma_div_multiples_vanish(b, d);
        }
    } else {
        lemma_mul_inequality(0, -a, b);
        lemma_div_pos_is_pos((-a) * b, d);
        if b <= d {
            lemma_mul_inequality(b, d, -a);
            assert((-a) * b == b * (-a)) by (nonlinear_arith);
            assert((-a) * d == d * (-a)) by (nonlinear_arith);
            lemma_div_is_ordered((-a) * b, (-a) * d, d);
            lemma_div_multiples_vanish(-a, d);
        }
        if -d <= a {
            lemma_mul_inequality(-a, d, b);
            assert((-a) * b == b * (-a)) by (nonlinear_arith);
            assert(d * b == b * d) by (nonlinear_arith);
            lemma_div_is_ordered((-a) * b, d * b, d);
            lemma_div_multiples_vanish(b, d);
        }
    }
}

/// Fixed-point product of two scalars in `[-ONE, ONE]`, rounded toward zero.
pub open spec fn spec_qmul(a: int, b: int) -> int {
    if a * b >= 0 {
        (a * b) / (ONE as int)
    } else {
        -((-(a * b)) / (ONE as int))
    }
}

/// Fixed-point multiply of two scalars in `[-ONE, ONE]`.
pub fn qmul(a: i64, b: i64) -> (r: i64)
    requires
        -ONE <= a <= ONE,
        -ONE <= b <= ONE,
    ensures
        r == spec_qmul(a as int, b as int),
        -ONE <= r <= ONE,
{
    proof {
        assert(-(ONE as int) * ONE <= a * b <= (ONE as int) * ONE) by (nonlinear_arith)
            requires
                -ONE <= a <= ONE,
                -ONE <= b <= ONE,
        ;
        lemma_muldiv_props(a * b, 1, 1);
        lemma_div_is_ordered(a * b, (ONE as int) * ONE, ONE as int);
        lemma_div_is_ordered(-(a * b), (ONE as int) * ONE, ONE as int);
        lemma_div_multiples_vanish(ONE as int, ONE as int);
        if a * b >= 0 {
            lemma_div_pos_is_pos(a * b, ONE as int);
        } else {
            lemma_div_pos_is_pos(-(a * b), ONE as int);
        }
    }
    let p = a * b;
    if p >= 0 {
        p / ONE
    } else {
        -((-p) / ONE)
    }
}

/// Linear blend between `a` and `b`: `a + (b - a) * t / ONE` for a blend
/// factor `t` in `[0, ONE]`.
pub open spec fn spec_lerp(a: int, b: int, t: int) -> int {
    a + spec_muldiv(b - a, t, ONE as int)
}

/// Linear interpolation between two scalars.
pub fn lerp(a: i64, b: i64, t: i64) -> (r: i64)
    requires
        -2_000_000_000 <= a <= 2_000_000_000,
        -2_000_000_000 <= b <= 2_000_000_000,
        0 <= t <= ONE,
    ensures
        r == spec_lerp(a as int, b as int, t as int),
        a <= b ==> a <= r <= b,
        b <= a ==> b <= r <= a,
{
    let d = b - a;
    proof {
        assert(-0x4000_0000_0000_0000 <= (d as int) * t <= 0x4000_0000_0000_0000) by (nonlinear_arith)
            requires
                -4_000_000_000 <= d <= 4_000_000_000,
                0 <= t <= ONE,
        ;
    }
    let m = muldiv(d, t, ONE);
    a + m
}

/// Componentwise linear interpolation between two vectors.
pub fn lerp_vector3(a: Vector3, b: Vector3, t: i64) -> (r: Vector3)
    requires
        a.bounded(2_000_000_000),
        b.bounded(2_000_000_000),
        0 <= t <= ONE,
    ensures
        r.x == spec_lerp(a.x as int, b.x as int, t as int),
        r.y == spec_lerp(a.y as int, b.y as int, t as int),
        r.z == spec_lerp(a.z as int, b.z as int, t as int),
        forall|m: int| a.bounded(m) && b.bounded(m) ==> r.bounded(m),
{
    Vector3 { x: lerp(a.x, b.x, t), y: lerp(a.y, b.y, t), z: lerp(a.z, b.z, t) }
}

/// Half of `x`, rounded toward zero.
pub open spec fn spec_half(x: int) -> int {
    if x >= 0 {
        x / 2
    } else {
        -((-x) / 2)
    }
}

/// Halve a scalar, rounding toward zero.
pub fn half64(x: i64) -> (r: i64)
    requires
        -0x4000_0000_0000_0000 <= x,
    ensures
        r == spec_half(x as int),
        x >= 0 ==> 0 <= r <= x,
        x < 0 ==> x <= r <= 0,
{
    proof {
        if x >= 0 {
            lemma_div_pos_is_pos(x as int, 2);
            lemma_div_is_ordered(x as int, 2 * (x as int), 2);
            lemma_div_multiples_vanish(x as int, 2);
        } else {
            lemma_div_pos_is_pos(-(x as int), 2);
            lemma_div_is_ordered(-(x as int), 2 * (-(x as int)), 2);
            lemma_div_multiples_vanish(-(x as int), 2);
        }
    }
    if x >= 0 {
        x / 2
    } else {
        -((-x) / 2)
    }
}

/// True when `r` is the integer square root of `n`.
pub open spec fn is_sqrt(n: int, r: int) -> bool {
    &&& 0 <= r
    &&& r * r <= n
    &&& n < (r + 1) * (r + 1)
}

/// The integer square root of a non-negative `n`.
pub open spec fn spec_isqrt(n: int) -> int {
    choose|r: int| is_sqrt(n, r)
}

/// The integer square root is unique, so any witness is the chosen one.
pub proof fn lemma_sqrt_unique(n: int, r: int)
    requires
        is_sqrt(n, r),
    ensures
        spec_isqrt(n) == r,
{
    assert(is_sqrt(n, spec_isqrt(n))) by {
        assert(exists|q: int| is_sqrt(n, q));
    }
    let w = spec_isqrt(n);
    if w < r {
        assert((w + 1) * (w + 1) <= r * r) by (nonlinear_arith)
            requires
                0 <= w + 1 <= r,
        ;
    }
    if r < w {
        assert((r + 1) * (r + 1) <= w * w) by (nonlinear_arith)
            requires
                0 <= r + 1 <= w,
        ;
    }
}

/// Integer square root by binary search.
pub fn isqrt(n: i64) -> (r: i64)
    requires
        0 <= n,
    ensures
        is_sqrt(n as int, r as int),
        r == spec_isqrt(n as int),
        0 <= r <= 3_037_000_499,
{
    let nn: u64 = n as u64;
    let mut lo: u64 = 0;
    let mut hi: u64 = 3_037_000_500;
    proof {
        assert((nn as int) < (hi as int) * (hi as int)) by (nonlinear_arith)
            requires
                nn as int <= 0x7fff_ffff_ffff_ffff,
                hi == 3_037_000_500,
        ;
    }
    while hi - lo > 1
        invariant
            lo < hi <= 3_037_000_500,
            (lo as int) * (lo as int) <= nn as int,
            (nn as int) < (hi as int) * (hi as int),
            nn == n,
        decreases hi - lo,
    {
        let mid = lo + (hi - lo) / 2;
        proof {
            assert((mid as int) * (mid as int) <= 0x7fff_ffff_ffff_ffff + 0x4000_0000) by (nonlinear_arith)
                requires
                    mid as int <= 3_037_000_499,
            ;
        }
        if mid * mid <= nn {
            lo = mid;
        } else {
            hi = mid;
        }
    }
    proof {
        lemma_sqrt_unique(n as int, lo as int);
    }
    lo as i64
}

} // verus!
