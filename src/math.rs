//! Fixed-point vector arithmetic shared by every simulation.
//!
//! Every quantity is an integer in a fixed unit, and every operation saturates at the
//! bounds of `i64`. Integer arithmetic is exact and has one result on every machine,
//! which is what makes two simulations of the same inputs agree bit for bit.
use vstd::prelude::*;

verus! {

/// Clamps a mathematical integer into the range of `i64`.
pub open spec fn clamp_i64(v: int) -> i64 {
    if v > i64::MAX {
        i64::MAX
    } else if v < i64::MIN {
        i64::MIN
    } else {
        v as i64
    }
}

/// Addition that saturates at the bounds of `i64`.
pub fn sat_add(a: i64, b: i64) -> (r: i64)
    ensures
        r == clamp_i64(a + b),
{
    let s: i128 = a as i128 + b as i128;
    if s > i64::MAX as i128 {
        i64::MAX
    } else if s < i64::MIN as i128 {
        i64::MIN
    } else {
        s as i64
    }
}

/// Multiplication that saturates at the bounds of `i64`.
pub fn sat_mul(a: i64, b: i64) -> (r: i64)
    ensures
        r == clamp_i64(a * b),
{
    match a.checked_mul(b) {
        Some(p) => p,
        None => {
            if (a < 0) == (b < 0) {
                proof {
                    assert(a * b >= 0) by (nonlinear_arith)
                        requires
                            (a < 0) == (b < 0),
                    ;
                }
                i64::MAX
            } else {
                proof {
                    assert(a * b <= 0) by (nonlinear_arith)
                        requires
                            (a < 0) != (b < 0),
                    ;
                }
                i64::MIN
            }
        },
    }
}

/// A point or a direction in the simulation's fixed-point units.
#[derive(Clone, Copy, Debug, PartialEq, Eq, Structural)]
pub struct Vec3 {
    pub x: i64,
    pub y: i64,
    pub z: i64,
}

/// Component-wise saturating sum.
pub open spec fn vec_plus(a: Vec3, b: Vec3) -> Vec3 {
    Vec3 { x: clamp_i64(a.x + b.x), y: clamp_i64(a.y + b.y), z: clamp_i64(a.z + b.z) }
}

/// Component-wise saturating product with a scalar.
pub open spec fn vec_scaled(a: Vec3, k: i64) -> Vec3 {
    Vec3 { x: clamp_i64(a.x * k), y: clamp_i64(a.y * k), z: clamp_i64(a.z * k) }
}

impl Vec3 {
    pub fn new(x: i64, y: i64, z: i64) -> (r: Vec3)
        ensures
            r == (Vec3 { x, y, z }),
    {
        Vec3 { x, y, z }
    }

    pub fn zero() -> (r: Vec3)
        ensures
            r == (Vec3 { x: 0, y: 0, z: 0 }),
    {
        Vec3 { x: 0, y: 0, z: 0 }
    }

    pub fn plus(&self, o: &Vec3) -> (r: Vec3)
        ensures
            r == vec_plus(*self, *o),
    {
        Vec3 { x: sat_add(self.x, o.x), y: sat_add(self.y, o.y), z: sat_add(self.z, o.z) }
    }

    pub fn scaled(&self, k: i64) -> (r: Vec3)
        ensures
            r == vec_scaled(*self, k),
    {
        Vec3 { x: sat_mul(self.x, k), y: sat_mul(self.y, k), z: sat_mul(self.z, k) }
    }
}

} // verus!
