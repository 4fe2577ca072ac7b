//! Axis-aligned box stored as a center position and a half-size.

use crate::vecs::WorldVec;
use vstd::prelude::*;

verus! {

/// Coordinate bound under which box arithmetic cannot overflow `i64`.
pub const AABB_LIMIT: i64 = 0x1000_0000_0000_0000;

/// An axis-aligned box: `position` is its center, `half_size` its extent
/// from the center along each axis.
#[derive(Clone, Copy, Debug, PartialEq, Eq, Structural)]
pub struct Aabb {
    pub position: WorldVec,
    pub half_size: WorldVec,
}

impl Aabb {
    /// The box is within coordinate bounds and its half-size is non-negative.
    pub open spec fn wf(self) -> bool {
        &&& -AABB_LIMIT <= self.position.x <= AABB_LIMIT
        &&& -AABB_LIMIT <= self.position.y <= AABB_LIMIT
        &&& 0 <= self.half_size.x <= AABB_LIMIT
        &&& 0 <= self.half_size.y <= AABB_LIMIT
    }

    /// Closed-interval overlap on both axes: the projections
    /// `[position - half_size, position + half_size]` meet, edges included.
    pub open spec fn spec_intersects(self, other: Aabb) -> bool {
        &&& self.position.x + self.half_size.x >= other.position.x - other.half_size.x
        &&& other.position.x + other.half_size.x >= self.position.x - self.half_size.x
        &&& self.position.y + self.half_size.y >= other.position.y - other.half_size.y
        &&& other.position.y + other.half_size.y >= self.position.y - self.half_size.y
    }

    pub fn new(position: WorldVec, half_size: WorldVec) -> (r: Aabb)
        ensures
            r == (Aabb { position, half_size }),
    {
        Aabb { position, half_size }
    }

    /// True iff the two boxes overlap, touching edges included.
    pub fn intersects(&self, other: &Aabb) -> (r: bool)
        requires
            self.wf(),
            other.wf(),
        ensures
            r == self.spec_intersects(*other),
    {
        let collision_x = (self.position.x + self.half_size.x)
            >= (other.position.x - other.half_size.x)
            && (other.position.x + other.half_size.x) >= (self.position.x - self.half_size.x);
        let collision_y = (self.position.y + self.half_size.y)
            >= (other.position.y - other.half_size.y)
            && (other.position.y + other.half_size.y) >= (self.position.y - self.half_size.y);
        collision_x && collision_y
    }
}

/// Intersection of `Aabb` boxes is symmetric.
pub proof fn lemma_aabb_intersects_symmetric(a: Aabb, b: Aabb)
    ensures
        a.spec_intersects(b) == b.spec_intersects(a),
{
}

} // verus!
