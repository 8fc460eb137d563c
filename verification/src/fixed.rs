//! Saturating fixed-point arithmetic.
//!
//! Lengths, angles, speeds and durations are signed 64-bit integers counted in
//! units of 1/65536: the value `ONE` stands for one voxel edge, one radian or
//! one second. Every operation is total. A result that leaves the 64-bit range
//! sticks at the nearest bound, and a product is rounded down.

use vstd::prelude::*;

verus! {

/// The fixed-point representation of 1.
pub const ONE: i64 = 65536;

/// The nearest 64-bit value to `x`.
pub open spec fn saturate(x: int) -> i64 {
    if x < i64::MIN {
        i64::MIN
    } else if x > i64::MAX {
        i64::MAX
    } else {
        x as i64
    }
}

/// Saturating sum.
pub open spec fn sum(a: i64, b: i64) -> i64 {
    saturate(a + b)
}

/// Saturating difference.
pub open spec fn diff(a: i64, b: i64) -> i64 {
    saturate(a - b)
}

/// Saturating fixed-point product, rounded toward negative infinity.
pub open spec fn product(a: i64, b: i64) -> i64 {
    saturate((a * b) / 65536)
}

/// Three fixed-point components.
#[derive(Copy, Clone, Debug, PartialEq, Eq, Structural)]
pub struct Vec3 {
    pub x: i64,
    pub y: i64,
    pub z: i64,
}

/// Component-wise saturating sum.
pub open spec fn vec3_sum(a: Vec3, b: Vec3) -> Vec3 {
    Vec3 { x: sum(a.x, b.x), y: sum(a.y, b.y), z: sum(a.z, b.z) }
}

/// Component-wise saturating difference.
pub open spec fn vec3_diff(a: Vec3, b: Vec3) -> Vec3 {
    Vec3 { x: diff(a.x, b.x), y: diff(a.y, b.y), z: diff(a.z, b.z) }
}

/// Every component multiplied by the fixed-point factor `s`.
pub open spec fn vec3_scaled(a: Vec3, s: i64) -> Vec3 {
    Vec3 { x: product(a.x, s), y: product(a.y, s), z: product(a.z, s) }
}

fn narrow(x: i128) -> (r: i64)
    ensures
        r == saturate(x as int),
{
    if x < -0x8000_0000_0000_0000 {
        i64::MIN
    } else if x > 0x7fff_ffff_ffff_ffff {
        i64::MAX
    } else {
        x as i64
    }
}

/// Saturating sum of two fixed-point numbers.
pub fn plus(a: i64, b: i64) -> (r: i64)
    ensures
        r == sum(a, b),
{
    narrow(a as i128 + b as i128)
}

/// Saturating difference of two fixed-point numbers.
pub fn minus(a: i64, b: i64) -> (r: i64)
    ensures
        r == diff(a, b),
{
    narrow(a as i128 - b as i128)
}

/// Saturating product of two fixed-point numbers, rounded down.
pub fn times(a: i64, b: i64) -> (r: i64)
    ensures
        r == product(a, b),
{
    let x: i128 = a as i128;
    let y: i128 = b as i128;
    assert(-0x4000_0000_0000_0000_0000_0000_0000_0000 <= x * y
        <= 0x4000_0000_0000_0000_0000_0000_0000_0000) by (nonlinear_arith)
        requires
            -0x8000_0000_0000_0000 <= x < 0x8000_0000_0000_0000,
            -0x8000_0000_0000_0000 <= y < 0x8000_0000_0000_0000,
    ;
    let p: i128 = x * y;
    let q: i128 = if p >= 0 {
        p / 65536
    } else {
        -((65535 - p) / 65536)
    };
    assert(q == (a * b) / 65536);
    narrow(q)
}

impl Vec3 {
    /// The vector with all three components zero.
    pub fn zero() -> (v: Vec3)
        ensures
            v == (Vec3 { x: 0, y: 0, z: 0 }),
    {
        Vec3 { x: 0, y: 0, z: 0 }
    }

    /// Component-wise saturating sum.
    pub fn plus(self, other: Vec3) -> (v: Vec3)
        ensures
            v == vec3_sum(self, other),
    {
        Vec3 { x: plus(self.x, other.x), y: plus(self.y, other.y), z: plus(self.z, other.z) }
    }

    /// Component-wise saturating difference.
    pub fn minus(self, other: Vec3) -> (v: Vec3)
        ensures
            v == vec3_diff(self, other),
    {
        Vec3 { x: minus(self.x, other.x), y: minus(self.y, other.y), z: minus(self.z, other.z) }
    }

    /// Every component multiplied by the fixed-point factor `s`.
    pub fn scaled(self, s: i64) -> (v: Vec3)
        ensures
            v == vec3_scaled(self, s),
    {
        Vec3 { x: times(self.x, s), y: times(self.y, s), z: times(self.z, s) }
    }
}

} // verus!
