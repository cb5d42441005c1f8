//! Points and axis-aligned bounding boxes in the 3D world, with the
//! containment and intersection predicates the propagation protocol is
//! built on.

use crate::ids::fresh_id;
use vstd::prelude::*;

verus! {

/// Largest coordinate magnitude the propagation arithmetic admits.
///
/// Both the sum and the difference of any two values in
/// `[-COORD_LIMIT, COORD_LIMIT]` fit in an `i64`, so expanding a box by a
/// radius and measuring axis extents never overflows.
pub const COORD_LIMIT: i64 = 0x3fff_ffff_ffff_ffff;

/// A position in the 3D game world.
#[derive(Debug, Clone, Copy)]
pub struct Vector3 {
    /// X coordinate
    pub x: i64,
    /// Y coordinate
    pub y: i64,
    /// Z coordinate
    pub z: i64,
}

impl Vector3 {
    /// Every coordinate lies within the range the propagation arithmetic
    /// admits.
    pub open spec fn bounded(self) -> bool {
        &&& -COORD_LIMIT <= self.x <= COORD_LIMIT
        &&& -COORD_LIMIT <= self.y <= COORD_LIMIT
        &&& -COORD_LIMIT <= self.z <= COORD_LIMIT
    }

    /// Checks that every coordinate lies within the range the propagation
    /// arithmetic admits.
    pub fn is_bounded(&self) -> (r: bool)
        ensures
            r == self.bounded(),
    {
        self.x >= -COORD_LIMIT && self.x <= COORD_LIMIT && self.y >= -COORD_LIMIT && self.y
            <= COORD_LIMIT && self.z >= -COORD_LIMIT && self.z <= COORD_LIMIT
    }

    /// Creates a new point from its three coordinates.
    pub fn new(x: i64, y: i64, z: i64) -> (v: Self)
        ensures
            v.x == x,
            v.y == y,
            v.z == z,
    {
        Vector3 { x, y, z }
    }
}

/// An axis-aligned bounding box: the region of space a server or cluster is
/// responsible for. Immutable after construction.
#[derive(Debug, Clone, Copy)]
pub struct SpatialPartition {
    /// Unique identifier for the partition
    pub id: u128,
    /// Minimum corner of the bounding box
    pub min: Vector3,
    /// Maximum corner of the bounding box
    pub max: Vector3,
}

impl SpatialPartition {
    /// The box is well formed: both corners are bounded and the minimum
    /// corner lies at or below the maximum corner on every axis.
    pub open spec fn wf(self) -> bool {
        &&& self.min.bounded()
        &&& self.max.bounded()
        &&& self.min.x <= self.max.x
        &&& self.min.y <= self.max.y
        &&& self.min.z <= self.max.z
    }

    /// The point lies within `[min, max]`, inclusive, on every axis.
    pub open spec fn spec_contains(self, point: Vector3) -> bool {
        &&& self.min.x <= point.x <= self.max.x
        &&& self.min.y <= point.y <= self.max.y
        &&& self.min.z <= point.z <= self.max.z
    }

    /// The two boxes overlap on every axis; boxes that merely touch count
    /// as intersecting (inclusive bounds).
    pub open spec fn spec_intersects(self, other: SpatialPartition) -> bool {
        &&& self.min.x <= other.max.x && self.max.x >= other.min.x
        &&& self.min.y <= other.max.y && self.max.y >= other.min.y
        &&& self.min.z <= other.max.z && self.max.z >= other.min.z
    }

    /// The length of the box's shortest axis: the least of the three
    /// componentwise differences between the maximum and minimum corner.
    pub open spec fn spec_min_extent(self) -> int {
        let dx = self.max.x - self.min.x;
        let dy = self.max.y - self.min.y;
        let dz = self.max.z - self.min.z;
        if dx <= dy && dx <= dz {
            dx
        } else if dy <= dz {
            dy
        } else {
            dz
        }
    }

    /// Computes the length of the box's shortest axis.
    pub fn min_extent(&self) -> (r: i64)
        requires
            self.wf(),
        ensures
            r == self.spec_min_extent(),
            r >= 0,
    {
        let dx = self.max.x - self.min.x;
        let dy = self.max.y - self.min.y;
        let dz = self.max.z - self.min.z;
        if dx <= dy && dx <= dz {
            dx
        } else if dy <= dz {
            dy
        } else {
            dz
        }
    }

    /// Creates a new partition with the given corners and a fresh
    /// identifier.
    pub fn new(min: Vector3, max: Vector3) -> (p: SpatialPartition)
        requires
            min.bounded(),
            max.bounded(),
            min.x <= max.x,
            min.y <= max.y,
            min.z <= max.z,
        ensures
            p.min == min,
            p.max == max,
            p.wf(),
    {
        SpatialPartition { id: fresh_id(), min, max }
    }

    /// Checks whether a point is within this partition.
    ///
    /// Returns true iff the point's coordinates lie within `[min, max]`
    /// inclusive on every axis, so boundary points count as contained.
    pub fn contains(&self, point: &Vector3) -> (r: bool)
        ensures
            r == self.spec_contains(*point),
    {
        point.x >= self.min.x && point.x <= self.max.x && point.y >= self.min.y && point.y
            <= self.max.y && point.z >= self.min.z && point.z <= self.max.z
    }

    /// Checks whether this partition intersects another (separating-axis
    /// test with inclusive bounds, so touching boxes intersect).
    pub fn intersects(&self, other: &SpatialPartition) -> (r: bool)
        ensures
            r == self.spec_intersects(*other),
    {
        self.min.x <= other.max.x && self.max.x >= other.min.x && self.min.y <= other.max.y
            && self.max.y >= other.min.y && self.min.z <= other.max.z && self.max.z >= other.min.z
    }

    /// Derives a box grown by `radius` on every axis: `radius` is
    /// subtracted from each minimum coordinate and added to each maximum
    /// coordinate. Used to build an event's effective bounding box for
    /// intersection tests. The derived box carries a fresh identifier.
    pub fn expanded_by(&self, radius: i64) -> (p: SpatialPartition)
        requires
            self.wf(),
            0 <= radius <= COORD_LIMIT,
        ensures
            p.min.x == self.min.x - radius,
            p.min.y == self.min.y - radius,
            p.min.z == self.min.z - radius,
            p.max.x == self.max.x + radius,
            p.max.y == self.max.y + radius,
            p.max.z == self.max.z + radius,
    {
        SpatialPartition {
            id: fresh_id(),
            min: Vector3 { x: self.min.x - radius, y: self.min.y - radius, z: self.min.z - radius },
            max: Vector3 { x: self.max.x + radius, y: self.max.y + radius, z: self.max.z + radius },
        }
    }
}

/// Box intersection is symmetric: whether two boxes overlap does not depend
/// on which of them asks.
pub proof fn lemma_intersects_symmetric(a: SpatialPartition, b: SpatialPartition)
    ensures
        a.spec_intersects(b) == b.spec_intersects(a),
{
}

/// Box intersection is reflexive for non-degenerate boxes: a box whose
/// minimum corner lies at or below its maximum corner intersects itself.
pub proof fn lemma_intersects_reflexive(a: SpatialPartition)
    requires
        a.min.x <= a.max.x,
        a.min.y <= a.max.y,
        a.min.z <= a.max.z,
    ensures
        a.spec_intersects(a),
{
}

} // verus!
