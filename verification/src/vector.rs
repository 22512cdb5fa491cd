//! Fixed-width vectors, matrices and quaternions of single-precision lanes.
//!
//! A lane is held as its 32-bit pattern, and lane arithmetic is the arithmetic
//! of [`crate::arithmetic`], so every result is determined to the bit.
use crate::arithmetic::{
    abs_single, add_single, ceil_single, floor_single, mul_single, single_abs, single_ceil,
    single_difference, single_floor, single_product, single_sum, sub_single,
};
use crate::division::{div_single, single_quotient};
use crate::single::ONE;
use vstd::prelude::*;

verus! {

/// Two lanes, `x` and `y`.
#[allow(non_camel_case_types)]
#[derive(Clone, Copy, Debug, PartialEq, Eq, Structural)]
pub struct f32x2 {
    pub x: u32,
    pub y: u32,
}

/// Three lanes, `x`, `y` and `z`.
#[allow(non_camel_case_types)]
#[derive(Clone, Copy, Debug, PartialEq, Eq, Structural)]
pub struct f32x3 {
    pub x: u32,
    pub y: u32,
    pub z: u32,
}

/// Four lanes, `x`, `y`, `z` and `w`.
#[allow(non_camel_case_types)]
#[derive(Clone, Copy, Debug, PartialEq, Eq, Structural)]
pub struct f32x4 {
    pub x: u32,
    pub y: u32,
    pub z: u32,
    pub w: u32,
}

impl f32x2 {
    /// The vector whose lanes are `f` applied to the lanes of `self`.
    pub open spec fn map(self, f: spec_fn(u32) -> u32) -> f32x2 {
        f32x2 { x: f(self.x), y: f(self.y) }
    }

    /// The vector whose lanes are `f` applied to the lanes of `self` and `rhs`,
    /// lane by lane.
    pub open spec fn zip(self, rhs: f32x2, f: spec_fn(u32, u32) -> u32) -> f32x2 {
        f32x2 {
            x: f(self.x, rhs.x),
            y: f(self.y, rhs.y),
        }
    }

    /// The vector of the lanes in `a`, in order.
    pub fn new(a: [u32; 2]) -> (v: f32x2)
        ensures
            v == (f32x2 { x: a[0], y: a[1] }),
    {
        f32x2 { x: a[0], y: a[1] }
    }

    /// The vector with `lane` in every lane.
    pub fn splat(lane: u32) -> (v: f32x2)
        ensures
            v == (f32x2 { x: lane, y: lane }),
    {
        f32x2 { x: lane, y: lane }
    }

    /// Lane 0.
    pub fn x(&self) -> (lane: u32)
        ensures
            lane == self.x,
    {
        self.x
    }

    /// Lane 1.
    pub fn y(&self) -> (lane: u32)
        ensures
            lane == self.y,
    {
        self.y
    }

    /// Each lane rounded down to a whole number.
    pub fn floor(&self) -> (v: f32x2)
        ensures
            v == self.map(|lane: u32| single_floor(lane)),
    {
        f32x2 {
            x: floor_single(self.x),
            y: floor_single(self.y),
        }
    }

    /// Each lane rounded up to a whole number.
    pub fn ceil(&self) -> (v: f32x2)
        ensures
            v == self.map(|lane: u32| single_ceil(lane)),
    {
        f32x2 {
            x: ceil_single(self.x),
            y: ceil_single(self.y),
        }
    }

    /// The absolute value of each lane.
    pub fn abs(&self) -> (v: f32x2)
        ensures
            v == self.map(|lane: u32| single_abs(lane)),
    {
        f32x2 {
            x: abs_single(self.x),
            y: abs_single(self.y),
        }
    }

    /// The sum, lane by lane.
    pub fn add(self, rhs: f32x2) -> (v: f32x2)
        ensures
            v == self.zip(rhs, |a: u32, b: u32| single_sum(a, b)),
    {
        f32x2 {
            x: add_single(self.x, rhs.x),
            y: add_single(self.y, rhs.y),
        }
    }

    /// The difference, lane by lane.
    pub fn sub(self, rhs: f32x2) -> (v: f32x2)
        ensures
            v == self.zip(rhs, |a: u32, b: u32| single_difference(a, b)),
    {
        f32x2 {
            x: sub_single(self.x, rhs.x),
            y: sub_single(self.y, rhs.y),
        }
    }

    /// The product, lane by lane.
    pub fn mul(self, rhs: f32x2) -> (v: f32x2)
        ensures
            v == self.zip(rhs, |a: u32, b: u32| single_product(a, b)),
    {
        f32x2 {
            x: mul_single(self.x, rhs.x),
            y: mul_single(self.y, rhs.y),
        }
    }

    /// The quotient, lane by lane.
    pub fn div(self, rhs: f32x2) -> (v: f32x2)
        ensures
            v == self.zip(rhs, |a: u32, b: u32| single_quotient(a, b)),
    {
        f32x2 {
            x: div_single(self.x, rhs.x),
            y: div_single(self.y, rhs.y),
        }
    }

    /// Adds `rhs` to `self`, lane by lane.
    pub fn add_assign(&mut self, rhs: f32x2)
        ensures
            *final(self) == old(self).zip(rhs, |a: u32, b: u32| single_sum(a, b)),
    {
        *self = self.add(rhs)
    }

    /// Subtracts `rhs` from `self`, lane by lane.
    pub fn sub_assign(&mut self, rhs: f32x2)
        ensures
            *final(self) == old(self).zip(rhs, |a: u32, b: u32| single_difference(a, b)),
    {
        *self = self.sub(rhs)
    }

    /// Multiplies `self` by `rhs`, lane by lane.
    pub fn mul_assign(&mut self, rhs: f32x2)
        ensures
            *final(self) == old(self).zip(rhs, |a: u32, b: u32| single_product(a, b)),
    {
        *self = self.mul(rhs)
    }

    /// Divides `self` by `rhs`, lane by lane.
    pub fn div_assign(&mut self, rhs: f32x2)
        ensures
            *final(self) == old(self).zip(rhs, |a: u32, b: u32| single_quotient(a, b)),
    {
        *self = self.div(rhs)
    }
}

impl f32x3 {
    /// The vector whose lanes are `f` applied to the lanes of `self`.
    pub open spec fn map(self, f: spec_fn(u32) -> u32) -> f32x3 {
        f32x3 { x: f(self.x), y: f(self.y), z: f(self.z) }
    }

    /// The vector whose lanes are `f` applied to the lanes of `self` and `rhs`,
    /// lane by lane.
    pub open spec fn zip(self, rhs: f32x3, f: spec_fn(u32, u32) -> u32) -> f32x3 {
        f32x3 {
            x: f(self.x, rhs.x),
            y: f(self.y, rhs.y),
            z: f(self.z, rhs.z),
        }
    }

    /// The vector of the lanes in `a`, in order.
    pub fn new(a: [u32; 3]) -> (v: f32x3)
        ensures
            v == (f32x3 { x: a[0], y: a[1], z: a[2] }),
    {
        f32x3 { x: a[0], y: a[1], z: a[2] }
    }

    /// The vector with `lane` in every lane.
    pub fn splat(lane: u32) -> (v: f32x3)
        ensures
            v == (f32x3 { x: lane, y: lane, z: lane }),
    {
        f32x3 { x: lane, y: lane, z: lane }
    }

    /// Lane 0.
    pub fn x(&self) -> (lane: u32)
        ensures
            lane == self.x,
    {
        self.x
    }

    /// Lane 1.
    pub fn y(&self) -> (lane: u32)
        ensures
            lane == self.y,
    {
        self.y
    }

    /// Lane 2.
    pub fn z(&self) -> (lane: u32)
        ensures
            lane == self.z,
    {
        self.z
    }

    /// Each lane rounded down to a whole number.
    pub fn floor(&self) -> (v: f32x3)
        ensures
            v == self.map(|lane: u32| single_floor(lane)),
    {
        f32x3 {
            x: floor_single(self.x),
            y: floor_single(self.y),
            z: floor_single(self.z),
        }
    }

    /// Each lane rounded up to a whole number.
    pub fn ceil(&self) -> (v: f32x3)
        ensures
            v == self.map(|lane: u32| single_ceil(lane)),
    {
        f32x3 {
            x: ceil_single(self.x),
            y: ceil_single(self.y),
            z: ceil_single(self.z),
        }
    }

    /// The absolute value of each lane.
    pub fn abs(&self) -> (v: f32x3)
        ensures
            v == self.map(|lane: u32| single_abs(lane)),
    {
        f32x3 {
            x: abs_single(self.x),
            y: abs_single(self.y),
            z: abs_single(self.z),
        }
    }

    /// The sum, lane by lane.
    pub fn add(self, rhs: f32x3) -> (v: f32x3)
        ensures
            v == self.zip(rhs, |a: u32, b: u32| single_sum(a, b)),
    {
        f32x3 {
            x: add_single(self.x, rhs.x),
            y: add_single(self.y, rhs.y),
            z: add_single(self.z, rhs.z),
        }
    }

    /// The difference, lane by lane.
    pub fn sub(self, rhs: f32x3) -> (v: f32x3)
        ensures
            v == self.zip(rhs, |a: u32, b: u32| single_difference(a, b)),
    {
        f32x3 {
            x: sub_single(self.x, rhs.x),
            y: sub_single(self.y, rhs.y),
            z: sub_single(self.z, rhs.z),
        }
    }

    /// The product, lane by lane.
    pub fn mul(self, rhs: f32x3) -> (v: f32x3)
        ensures
            v == self.zip(rhs, |a: u32, b: u32| single_product(a, b)),
    {
        f32x3 {
            x: mul_single(self.x, rhs.x),
            y: mul_single(self.y, rhs.y),
            z: mul_single(self.z, rhs.z),
        }
    }

    /// The quotient, lane by lane.
    pub fn div(self, rhs: f32x3) -> (v: f32x3)
        ensures
            v == self.zip(rhs, |a: u32, b: u32| single_quotient(a, b)),
    {
        f32x3 {
            x: div_single(self.x, rhs.x),
            y: div_single(self.y, rhs.y),
            z: div_single(self.z, rhs.z),
        }
    }

    /// Adds `rhs` to `self`, lane by lane.
    pub fn add_assign(&mut self, rhs: f32x3)
        ensures
            *final(self) == old(self).zip(rhs, |a: u32, b: u32| single_sum(a, b)),
    {
        *self = self.add(rhs)
    }

    /// Subtracts `rhs` from `self`, lane by lane.
    pub fn sub_assign(&mut self, rhs: f32x3)
        ensures
            *final(self) == old(self).zip(rhs, |a: u32, b: u32| single_difference(a, b)),
    {
        *self = self.sub(rhs)
    }

    /// Multiplies `self` by `rhs`, lane by lane.
    pub fn mul_assign(&mut self, rhs: f32x3)
        ensures
            *final(self) == old(self).zip(rhs, |a: u32, b: u32| single_product(a, b)),
    {
        *self = self.mul(rhs)
    }

    /// Divides `self` by `rhs`, lane by lane.
    pub fn div_assign(&mut self, rhs: f32x3)
        ensures
            *final(self) == old(self).zip(rhs, |a: u32, b: u32| single_quotient(a, b)),
    {
        *self = self.div(rhs)
    }
}

impl f32x4 {
    /// The vector whose lanes are `f` applied to the lanes of `self`.
    pub open spec fn map(self, f: spec_fn(u32) -> u32) -> f32x4 {
        f32x4 { x: f(self.x), y: f(self.y), z: f(self.z), w: f(self.w) }
    }

    /// The vector whose lanes are `f` applied to the lanes of `self` and `rhs`,
    /// lane by lane.
    pub open spec fn zip(self, rhs: f32x4, f: spec_fn(u32, u32) -> u32) -> f32x4 {
        f32x4 {
            x: f(self.x, rhs.x),
            y: f(self.y, rhs.y),
            z: f(self.z, rhs.z),
            w: f(self.w, rhs.w),
        }
    }

    /// The vector of the four lanes in `a`, in order.
    pub fn new(a: [u32; 4]) -> (v: f32x4)
        ensures
            v == (f32x4 { x: a[0], y: a[1], z: a[2], w: a[3] }),
    {
        f32x4 { x: a[0], y: a[1], z: a[2], w: a[3] }
    }

    /// The vector with `lane` in all four lanes.
    pub fn splat(lane: u32) -> (v: f32x4)
        ensures
            v == (f32x4 { x: lane, y: lane, z: lane, w: lane }),
    {
        f32x4 { x: lane, y: lane, z: lane, w: lane }
    }

    /// The three lanes of `a`, followed by `b` as the fourth.
    pub fn f32x3_f32(a: f32x3, b: u32) -> (v: f32x4)
        ensures
            v == (f32x4 { x: a.x, y: a.y, z: a.z, w: b }),
    {
        f32x4 { x: a.x, y: a.y, z: a.z, w: b }
    }

    /// Lane 0.
    pub fn x(&self) -> (lane: u32)
        ensures
            lane == self.x,
    {
        self.x
    }

    /// Lane 1.
    pub fn y(&self) -> (lane: u32)
        ensures
            lane == self.y,
    {
        self.y
    }

    /// Lane 2.
    pub fn z(&self) -> (lane: u32)
        ensures
            lane == self.z,
    {
        self.z
    }

    /// Lane 3.
    pub fn w(&self) -> (lane: u32)
        ensures
            lane == self.w,
    {
        self.w
    }

    /// Lane 0, to be written to: what is left there is the lane afterwards,
    /// and no other lane changes.
    pub fn x_mut(&mut self) -> (lane: &mut u32)
        ensures
            *lane == old(self).x,
            *final(self) == (f32x4 {
                x: *final(lane),
                y: old(self).y,
                z: old(self).z,
                w: old(self).w,
            }),
    {
        &mut self.x
    }

    /// Lane 1, to be written to: what is left there is the lane afterwards,
    /// and no other lane changes.
    pub fn y_mut(&mut self) -> (lane: &mut u32)
        ensures
            *lane == old(self).y,
            *final(self) == (f32x4 {
                x: old(self).x,
                y: *final(lane),
                z: old(self).z,
                w: old(self).w,
            }),
    {
        &mut self.y
    }

    /// Lane 2, to be written to: what is left there is the lane afterwards,
    /// and no other lane changes.
    pub fn z_mut(&mut self) -> (lane: &mut u32)
        ensures
            *lane == old(self).z,
            *final(self) == (f32x4 {
                x: old(self).x,
                y: old(self).y,
                z: *final(lane),
                w: old(self).w,
            }),
    {
        &mut self.z
    }

    /// Lane 3, to be written to: what is left there is the lane afterwards,
    /// and no other lane changes.
    pub fn w_mut(&mut self) -> (lane: &mut u32)
        ensures
            *lane == old(self).w,
            *final(self) == (f32x4 {
                x: old(self).x,
                y: old(self).y,
                z: old(self).z,
                w: *final(lane),
            }),
    {
        &mut self.w
    }

    /// Each lane rounded down to a whole number.
    pub fn floor(&self) -> (v: f32x4)
        ensures
            v == self.map(|lane: u32| single_floor(lane)),
    {
        f32x4 {
            x: floor_single(self.x),
            y: floor_single(self.y),
            z: floor_single(self.z),
            w: floor_single(self.w),
        }
    }

    /// Each lane rounded up to a whole number.
    pub fn ceil(&self) -> (v: f32x4)
        ensures
            v == self.map(|lane: u32| single_ceil(lane)),
    {
        f32x4 {
            x: ceil_single(self.x),
            y: ceil_single(self.y),
            z: ceil_single(self.z),
            w: ceil_single(self.w),
        }
    }

    /// The absolute value of each lane.
    pub fn abs(&self) -> (v: f32x4)
        ensures
            v == self.map(|lane: u32| single_abs(lane)),
    {
        f32x4 {
            x: abs_single(self.x),
            y: abs_single(self.y),
            z: abs_single(self.z),
            w: abs_single(self.w),
        }
    }

    /// The sum, lane by lane.
    pub fn add(self, rhs: f32x4) -> (v: f32x4)
        ensures
            v == self.zip(rhs, |a: u32, b: u32| single_sum(a, b)),
    {
        f32x4 {
            x: add_single(self.x, rhs.x),
            y: add_single(self.y, rhs.y),
            z: add_single(self.z, rhs.z),
            w: add_single(self.w, rhs.w),
        }
    }

    /// The difference, lane by lane.
    pub fn sub(self, rhs: f32x4) -> (v: f32x4)
        ensures
            v == self.zip(rhs, |a: u32, b: u32| single_difference(a, b)),
    {
        f32x4 {
            x: sub_single(self.x, rhs.x),
            y: sub_single(self.y, rhs.y),
            z: sub_single(self.z, rhs.z),
            w: sub_single(self.w, rhs.w),
        }
    }

    /// The product, lane by lane.
    pub fn mul(self, rhs: f32x4) -> (v: f32x4)
        ensures
            v == self.zip(rhs, |a: u32, b: u32| single_product(a, b)),
    {
        f32x4 {
            x: mul_single(self.x, rhs.x),
            y: mul_single(self.y, rhs.y),
            z: mul_single(self.z, rhs.z),
            w: mul_single(self.w, rhs.w),
        }
    }

    /// The quotient, lane by lane.
    pub fn div(self, rhs: f32x4) -> (v: f32x4)
        ensures
            v == self.zip(rhs, |a: u32, b: u32| single_quotient(a, b)),
    {
        f32x4 {
            x: div_single(self.x, rhs.x),
            y: div_single(self.y, rhs.y),
            z: div_single(self.z, rhs.z),
            w: div_single(self.w, rhs.w),
        }
    }

    /// Adds `rhs` to `self`, lane by lane.
    pub fn add_assign(&mut self, rhs: f32x4)
        ensures
            *final(self) == old(self).zip(rhs, |a: u32, b: u32| single_sum(a, b)),
    {
        *self = self.add(rhs)
    }

    /// Subtracts `rhs` from `self`, lane by lane.
    pub fn sub_assign(&mut self, rhs: f32x4)
        ensures
            *final(self) == old(self).zip(rhs, |a: u32, b: u32| single_difference(a, b)),
    {
        *self = self.sub(rhs)
    }

    /// Divides `self` by `rhs`, lane by lane.
    pub fn div_assign(&mut self, rhs: f32x4)
        ensures
            *final(self) == old(self).zip(rhs, |a: u32, b: u32| single_quotient(a, b)),
    {
        *self = self.div(rhs)
    }

    /// Multiplies `self` by `rhs`, lane by lane.
    pub fn mul_assign(&mut self, rhs: f32x4)
        ensures
            *final(self) == old(self).zip(rhs, |a: u32, b: u32| single_product(a, b)),
    {
        *self = self.mul(rhs)
    }
}

/// A 2x2 matrix, as its four entries column by column.
#[derive(Clone, Copy, Debug, PartialEq, Eq, Structural)]
pub struct Mat2(pub f32x4);

/// A quaternion `(x, y, z, w)`, `w` being the real part.
#[derive(Clone, Copy, Debug, PartialEq, Eq, Structural)]
pub struct Quat(pub f32x4);

impl Quat {
    /// The four lanes, in order.
    pub fn lanes(&self) -> (a: [u32; 4])
        ensures
            a[0] == self.0.x,
            a[1] == self.0.y,
            a[2] == self.0.z,
            a[3] == self.0.w,
    {
        [self.0.x, self.0.y, self.0.z, self.0.w]
    }

    /// Lane 0.
    pub fn x(&self) -> (lane: u32)
        ensures
            lane == self.0.x,
    {
        self.0.x
    }

    /// Lane 1.
    pub fn y(&self) -> (lane: u32)
        ensures
            lane == self.0.y,
    {
        self.0.y
    }

    /// Lane 2.
    pub fn z(&self) -> (lane: u32)
        ensures
            lane == self.0.z,
    {
        self.0.z
    }

    /// Lane 3.
    pub fn w(&self) -> (lane: u32)
        ensures
            lane == self.0.w,
    {
        self.0.w
    }

    /// Lane 0, to be written to: what is left there is the lane afterwards,
    /// and no other lane changes.
    pub fn x_mut(&mut self) -> (lane: &mut u32)
        ensures
            *lane == old(self).0.x,
            *final(self) == (Quat(
                f32x4 {
                    x: *final(lane),
                    y: old(self).0.y,
                    z: old(self).0.z,
                    w: old(self).0.w,
                },
            )),
    {
        &mut self.0.x
    }

    /// Lane 1, to be written to: what is left there is the lane afterwards,
    /// and no other lane changes.
    pub fn y_mut(&mut self) -> (lane: &mut u32)
        ensures
            *lane == old(self).0.y,
            *final(self) == (Quat(
                f32x4 {
                    x: old(self).0.x,
                    y: *final(lane),
                    z: old(self).0.z,
                    w: old(self).0.w,
                },
            )),
    {
        &mut self.0.y
    }

    /// Lane 2, to be written to: what is left there is the lane afterwards,
    /// and no other lane changes.
    pub fn z_mut(&mut self) -> (lane: &mut u32)
        ensures
            *lane == old(self).0.z,
            *final(self) == (Quat(
                f32x4 {
                    x: old(self).0.x,
                    y: old(self).0.y,
                    z: *final(lane),
                    w: old(self).0.w,
                },
            )),
    {
        &mut self.0.z
    }

    /// Lane 3, to be written to: what is left there is the lane afterwards,
    /// and no other lane changes.
    pub fn w_mut(&mut self) -> (lane: &mut u32)
        ensures
            *lane == old(self).0.w,
            *final(self) == (Quat(
                f32x4 {
                    x: old(self).0.x,
                    y: old(self).0.y,
                    z: old(self).0.z,
                    w: *final(lane),
                },
            )),
    {
        &mut self.0.w
    }
}

/// A 4x4 matrix, as its four columns.
#[derive(Clone, Copy, Debug, PartialEq, Eq, Structural)]
pub struct Mat4 {
    pub x_axis: f32x4,
    pub y_axis: f32x4,
    pub z_axis: f32x4,
    pub w_axis: f32x4,
}

/// The three axes of the rotation that the unit quaternion `q` stands for.
///
/// With `q2 = q + q`, lane by lane, the axes are
///
/// ```text
/// x_axis = (1 - (y*q2.y + z*q2.z),  x*q2.y + w*q2.z,  x*q2.z - w*q2.y, 0)
/// y_axis = (x*q2.y - w*q2.z,  1 - (x*q2.x + z*q2.z),  y*q2.z + w*q2.x, 0)
/// z_axis = (x*q2.z + w*q2.y,  y*q2.z - w*q2.x,  1 - (x*q2.x + y*q2.y), 0)
/// ```
///
/// where every sum, difference and product is rounded once, in the grouping
/// shown. The quaternion is taken as it is, without normalising it.
pub open spec fn rotation_axes(q: Quat) -> (f32x4, f32x4, f32x4) {
    let x = q.0.x;
    let y = q.0.y;
    let z = q.0.z;
    let w = q.0.w;
    let x2 = single_sum(x, x);
    let y2 = single_sum(y, y);
    let z2 = single_sum(z, z);
    let xx = single_product(x, x2);
    let xy = single_product(x, y2);
    let xz = single_product(x, z2);
    let yy = single_product(y, y2);
    let yz = single_product(y, z2);
    let zz = single_product(z, z2);
    let wx = single_product(w, x2);
    let wy = single_product(w, y2);
    let wz = single_product(w, z2);
    (
        f32x4 {
            x: single_difference(ONE, single_sum(yy, zz)),
            y: single_sum(xy, wz),
            z: single_difference(xz, wy),
            w: 0,
        },
        f32x4 {
            x: single_difference(xy, wz),
            y: single_difference(ONE, single_sum(xx, zz)),
            z: single_sum(yz, wx),
            w: 0,
        },
        f32x4 {
            x: single_sum(xz, wy),
            y: single_difference(yz, wx),
            z: single_difference(ONE, single_sum(xx, yy)),
            w: 0,
        },
    )
}

impl Mat4 {
    /// The three axes of the rotation that the unit quaternion `rotation`
    /// stands for, see [`rotation_axes`].
    pub fn quat_to_axes(rotation: Quat) -> (axes: (f32x4, f32x4, f32x4))
        ensures
            axes == rotation_axes(rotation),
    {
        let rotation2: f32x4 = rotation.0.add(rotation.0);
        let a: [u32; 4] = rotation.lanes();
        let x_rotation: f32x4 = f32x4::splat(a[0]).mul(rotation2);
        let y_rotation: f32x4 = f32x4::splat(a[1]).mul(rotation2);
        let zz: u32 = mul_single(a[2], rotation2.z());
        let w_rotation: f32x4 = f32x4::splat(a[3]).mul(rotation2);
        let x_axis = f32x4::new(
            [
                sub_single(ONE, add_single(y_rotation.y(), zz)),
                add_single(x_rotation.y(), w_rotation.z()),
                sub_single(x_rotation.z(), w_rotation.y()),
                0,
            ],
        );
        let y_axis = f32x4::new(
            [
                sub_single(x_rotation.y(), w_rotation.z()),
                sub_single(ONE, add_single(x_rotation.x(), zz)),
                add_single(y_rotation.z(), w_rotation.x()),
                0,
            ],
        );
        let z_axis = f32x4::new(
            [
                add_single(x_rotation.z(), w_rotation.y()),
                sub_single(y_rotation.z(), w_rotation.x()),
                sub_single(ONE, add_single(x_rotation.x(), y_rotation.y())),
                0,
            ],
        );
        (x_axis, y_axis, z_axis)
    }

    /// The matrix that rotates by the unit quaternion `rotation` and then
    /// moves by `translation`: its first three columns are the rotation's
    /// axes, its fourth is `(translation.x, translation.y, translation.z, 1)`.
    pub fn from_rotation_translation(rotation: Quat, translation: f32x3) -> (m: Mat4)
        ensures
            m == (Mat4 {
                x_axis: rotation_axes(rotation).0,
                y_axis: rotation_axes(rotation).1,
                z_axis: rotation_axes(rotation).2,
                w_axis: f32x4 { x: translation.x, y: translation.y, z: translation.z, w: ONE },
            }),
    {
        let (x_axis, y_axis, z_axis) = Mat4::quat_to_axes(rotation);
        Mat4::from_cols(x_axis, y_axis, z_axis, f32x4::f32x3_f32(translation, ONE))
    }

    /// The matrix of the four columns, in order.
    pub fn from_cols(x_axis: f32x4, y_axis: f32x4, z_axis: f32x4, w_axis: f32x4) -> (m: Mat4)
        ensures
            m == (Mat4 { x_axis, y_axis, z_axis, w_axis }),
    {
        Mat4 { x_axis, y_axis, z_axis, w_axis }
    }
}

/// A placement in space: a rotation followed by a translation.
#[derive(Clone, Copy, Debug, PartialEq, Eq, Structural)]
pub struct Transform {
    pub translation: f32x3,
    pub rotation: Quat,
}

impl Transform {
    /// The matrix of this placement, see [`Mat4::from_rotation_translation`].
    pub fn matrix(&self) -> (m: Mat4)
        ensures
            m == (Mat4 {
                x_axis: rotation_axes(self.rotation).0,
                y_axis: rotation_axes(self.rotation).1,
                z_axis: rotation_axes(self.rotation).2,
                w_axis: f32x4 {
                    x: self.translation.x,
                    y: self.translation.y,
                    z: self.translation.z,
                    w: ONE,
                },
            }),
    {
        Mat4::from_rotation_translation(self.rotation, self.translation)
    }
}

} // verus!
