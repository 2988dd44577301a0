//! Fixed-point scalar and vector types used throughout the library.
//!
//! A coordinate is a signed Q16.16 fixed-point number held in an `i32`:
//! `FIXED_ONE` (65536) is one world unit. Bounding boxes are held in `i64`
//! so that folds and the nominal-height offset can never overflow.

use vstd::prelude::*;

verus! {

/// One world unit in Q16.16 fixed point.
pub const FIXED_ONE: i32 = 65536;

/// A ground-plane position: `x` and `y` are the world x and z coordinates,
/// in Q16.16 fixed point.
#[derive(Clone, Copy, PartialEq, Eq, Structural, Debug)]
pub struct Vec2Fixed {
    pub x: i32,
    pub y: i32,
}

/// A full world position in Q16.16 fixed point.
#[derive(Clone, Copy, PartialEq, Eq, Structural, Debug)]
pub struct Vec3Fixed {
    pub x: i32,
    pub y: i32,
    pub z: i32,
}

/// A bounding-box corner in Q16.16 fixed point, widened to `i64`.
#[derive(Clone, Copy, PartialEq, Eq, Structural, Debug)]
pub struct Vec3World {
    pub x: i64,
    pub y: i64,
    pub z: i64,
}

/// An RGBA color with Q16.16 fixed-point channels.
#[derive(Clone, Copy, PartialEq, Eq, Structural, Debug)]
pub struct ColorFixed {
    pub r: i32,
    pub g: i32,
    pub b: i32,
    pub a: i32,
}

/// An axis-aligned bounding box given by its two corners.
#[derive(Clone, Copy, PartialEq, Eq, Structural, Debug)]
pub struct Aabb {
    pub min: Vec3World,
    pub max: Vec3World,
}

impl Aabb {
    /// The box extents (`max - min`) fit in `i64` componentwise.
    pub open spec fn spec_extents_fit(self) -> bool {
        &&& i64::MIN <= self.max.x - self.min.x <= i64::MAX
        &&& i64::MIN <= self.max.y - self.min.y <= i64::MAX
        &&& i64::MIN <= self.max.z - self.min.z <= i64::MAX
    }

    /// Componentwise `max - min`: the side lengths of the box.
    pub fn extents(&self) -> (r: Vec3World)
        requires
            self.spec_extents_fit(),
        ensures
            r.x == self.max.x - self.min.x,
            r.y == self.max.y - self.min.y,
            r.z == self.max.z - self.min.z,
    {
        Vec3World { x: self.max.x - self.min.x, y: self.max.y - self.min.y, z: self.max.z - self.min.z }
    }
}

} // verus!
