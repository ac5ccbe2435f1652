//! The listener: position and orientation that spatial sources are rendered
//! relative to. Owned by the surrounding audio context and read-only here.

use vstd::prelude::*;
use crate::math::{POS_LIMIT, SCALE};

verus! {

/// A point or direction in Q16 fixed-point 3-space.
#[derive(Clone, Copy, PartialEq, Eq, Structural, Debug)]
pub struct Vec3 {
    pub x: i64,
    pub y: i64,
    pub z: i64,
}

impl Vec3 {
    /// Coordinates small enough for squared distances to fit the machine word.
    pub open spec fn bounded_by(self, limit: int) -> bool {
        &&& -limit <= self.x <= limit
        &&& -limit <= self.y <= limit
        &&& -limit <= self.z <= limit
    }

    pub fn new(x: i64, y: i64, z: i64) -> (v: Vec3)
        ensures
            v == (Vec3 { x, y, z }),
    {
        Vec3 { x, y, z }
    }
}

/// Squared Euclidean distance between two points.
pub open spec fn dist_sq(a: Vec3, b: Vec3) -> int {
    (a.x - b.x) * (a.x - b.x) + (a.y - b.y) * (a.y - b.y) + (a.z - b.z) * (a.z - b.z)
}

/// Dot product of two vectors.
pub open spec fn dot(a: Vec3, b: Vec3) -> int {
    a.x * b.x + a.y * b.y + a.z * b.z
}

/// Position and orientation used to attenuate and pan spatial sources.
/// `ear_axis` points toward the listener's right ear and is expected to be
/// roughly unit length in Q16; panning is clamped, so no exact norm is
/// demanded of it.
#[derive(Clone, Copy, PartialEq, Eq, Structural, Debug)]
pub struct Listener {
    pub position: Vec3,
    pub ear_axis: Vec3,
}

impl Listener {
    /// Coordinates within range; the ear axis no longer than 2.0 in Q16.
    pub open spec fn well_formed(self) -> bool {
        &&& self.position.bounded_by(POS_LIMIT as int)
        &&& self.ear_axis.bounded_by(2 * SCALE as int)
    }

    pub fn new(position: Vec3, ear_axis: Vec3) -> (l: Listener)
        ensures
            l == (Listener { position, ear_axis }),
    {
        Listener { position, ear_axis }
    }

    pub fn position(&self) -> (p: Vec3)
        ensures
            p == self.position,
    {
        self.position
    }

    pub fn ear_axis(&self) -> (a: Vec3)
        ensures
            a == self.ear_axis,
    {
        self.ear_axis
    }
}

} // verus!
