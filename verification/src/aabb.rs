//! Axis-aligned bounding boxes over fixed-point world coordinates.
//!
//! World positions are plain 64-bit integers: a caller picks a fixed-point
//! scale and converts once at the boundary.  All the culling geometry is
//! exact integer arithmetic on these coordinates.

use vstd::prelude::*;
use vstd::math::{max, min};

verus! {

/// A point or direction in world space, in fixed-point units.
#[derive(Clone, Copy, Debug, PartialEq, Eq, Structural)]
pub struct Vec3 {
    pub x: i64,
    pub y: i64,
    pub z: i64,
}

/// Bound on the coordinates the squared-distance and plane arithmetic
/// accepts; products of in-range coordinates stay well inside `i128`.
pub const COORD_LIMIT: i64 = 0x1000_0000_0000;

/// Coordinates on which the culling arithmetic cannot overflow.
pub open spec fn in_coord_range(v: Vec3) -> bool {
    &&& -COORD_LIMIT <= v.x <= COORD_LIMIT
    &&& -COORD_LIMIT <= v.y <= COORD_LIMIT
    &&& -COORD_LIMIT <= v.z <= COORD_LIMIT
}

impl Vec3 {
    pub fn new(x: i64, y: i64, z: i64) -> (r: Vec3)
        ensures
            r == (Vec3 { x, y, z }),
    {
        Vec3 { x, y, z }
    }
}

/// An axis-aligned bounding box, the two extreme corners.
#[derive(Clone, Copy, Debug, PartialEq, Eq, Structural)]
pub struct AABB {
    pub min: Vec3,
    pub max: Vec3,
}

/// The box extended just enough to cover one more point.
pub open spec fn spec_add_pt(a: AABB, pt: Vec3) -> AABB {
    AABB {
        min: Vec3 {
            x: min(a.min.x as int, pt.x as int) as i64,
            y: min(a.min.y as int, pt.y as int) as i64,
            z: min(a.min.z as int, pt.z as int) as i64,
        },
        max: Vec3 {
            x: max(a.max.x as int, pt.x as int) as i64,
            y: max(a.max.y as int, pt.y as int) as i64,
            z: max(a.max.z as int, pt.z as int) as i64,
        },
    }
}

/// The union of two boxes: componentwise minimum of the minima and
/// maximum of the maxima.
pub open spec fn spec_merge(a: AABB, b: AABB) -> AABB {
    AABB {
        min: Vec3 {
            x: min(a.min.x as int, b.min.x as int) as i64,
            y: min(a.min.y as int, b.min.y as int) as i64,
            z: min(a.min.z as int, b.min.z as int) as i64,
        },
        max: Vec3 {
            x: max(a.max.x as int, b.max.x as int) as i64,
            y: max(a.max.y as int, b.max.y as int) as i64,
            z: max(a.max.z as int, b.max.z as int) as i64,
        },
    }
}

/// The corner of `b` furthest in the direction of `n`.
pub open spec fn spec_vertex_p(b: AABB, n: Vec3) -> Vec3 {
    Vec3 {
        x: if n.x >= 0 { b.max.x } else { b.min.x },
        y: if n.y >= 0 { b.max.y } else { b.min.y },
        z: if n.z >= 0 { b.max.z } else { b.min.z },
    }
}

/// The corner of `b` furthest against the direction of `n`.
pub open spec fn spec_vertex_n(b: AABB, n: Vec3) -> Vec3 {
    Vec3 {
        x: if n.x >= 0 { b.min.x } else { b.max.x },
        y: if n.y >= 0 { b.min.y } else { b.max.y },
        z: if n.z >= 0 { b.min.z } else { b.max.z },
    }
}

/// Distance of a coordinate from an interval, zero inside it.
pub open spec fn spec_axis_delta(lo: int, hi: int, p: int) -> int {
    if p < lo {
        lo - p
    } else if hi < p {
        p - hi
    } else {
        0
    }
}

impl AABB {
    /// The corners are ordered on every axis.
    pub open spec fn wf(&self) -> bool {
        &&& self.min.x <= self.max.x
        &&& self.min.y <= self.max.y
        &&& self.min.z <= self.max.z
    }

    pub fn new(min: Vec3, max: Vec3) -> (r: Self)
        ensures
            r == (AABB { min, max }),
    {
        AABB { min, max }
    }

    /// The corner of the box lying furthest in the direction of `normal`:
    /// per axis the maximum where the normal's component is non-negative,
    /// the minimum where it is negative.
    pub fn get_vertex_p(&self, normal: &Vec3) -> (r: Vec3)
        ensures
            r == spec_vertex_p(*self, *normal),
            r.x == if normal.x >= 0 { self.max.x } else { self.min.x },
            r.y == if normal.y >= 0 { self.max.y } else { self.min.y },
            r.z == if normal.z >= 0 { self.max.z } else { self.min.z },
    {
        let mut p = self.min;
        if normal.x >= 0 {
            p.x = self.max.x;
        }
        if normal.y >= 0 {
            p.y = self.max.y;
        }
        if normal.z >= 0 {
            p.z = self.max.z;
        }
        p
    }

    /// The corner of the box lying furthest against the direction of
    /// `normal`: the opposite choice of `get_vertex_p` on every axis.
    pub fn get_vertex_n(&self, normal: &Vec3) -> (r: Vec3)
        ensures
            r == spec_vertex_n(*self, *normal),
            r.x == if normal.x >= 0 { self.min.x } else { self.max.x },
            r.y == if normal.y >= 0 { self.min.y } else { self.max.y },
            r.z == if normal.z >= 0 { self.min.z } else { self.max.z },
    {
        let mut p = self.max;
        if normal.x >= 0 {
            p.x = self.min.x;
        }
        if normal.y >= 0 {
            p.y = self.min.y;
        }
        if normal.z >= 0 {
            p.z = self.min.z;
        }
        p
    }

    /// Extends the box in place to cover `pt`.
    pub fn add_pt(&mut self, pt: Vec3)
        requires
            old(self).wf(),
        ensures
            *final(self) == spec_add_pt(*old(self), pt),
            final(self).wf(),
    {
        if pt.x < self.min.x {
            self.min.x = pt.x;
        } else if pt.x > self.max.x {
            self.max.x = pt.x;
        }
        if pt.y < self.min.y {
            self.min.y = pt.y;
        } else if pt.y > self.max.y {
            self.max.y = pt.y;
        }
        if pt.z < self.min.z {
            self.min.z = pt.z;
        } else if pt.z > self.max.z {
            self.max.z = pt.z;
        }
    }

    /// Merges `rhs` into the box: the union of the two.
    pub fn merge(&mut self, rhs: &AABB)
        ensures
            *final(self) == spec_merge(*old(self), *rhs),
    {
        if rhs.min.x < self.min.x {
            self.min.x = rhs.min.x;
        }
        if rhs.min.y < self.min.y {
            self.min.y = rhs.min.y;
        }
        if rhs.min.z < self.min.z {
            self.min.z = rhs.min.z;
        }
        if rhs.max.x > self.max.x {
            self.max.x = rhs.max.x;
        }
        if rhs.max.y > self.max.y {
            self.max.y = rhs.max.y;
        }
        if rhs.max.z > self.max.z {
            self.max.z = rhs.max.z;
        }
    }

    /// The midpoint of the box, rounded toward the minimum corner.
    pub fn center(&self) -> (r: Vec3)
        requires
            self.wf(),
            self.max.x - self.min.x <= i64::MAX,
            self.max.y - self.min.y <= i64::MAX,
            self.max.z - self.min.z <= i64::MAX,
        ensures
            r.x == self.min.x + (self.max.x - self.min.x) / 2,
            r.y == self.min.y + (self.max.y - self.min.y) / 2,
            r.z == self.min.z + (self.max.z - self.min.z) / 2,
    {
        Vec3 {
            x: self.min.x + (self.max.x - self.min.x) / 2,
            y: self.min.y + (self.max.y - self.min.y) / 2,
            z: self.min.z + (self.max.z - self.min.z) / 2,
        }
    }

    /// The squared distance from `pt` to the box: per axis the clamped
    /// difference, then the sum of the squares; zero exactly when the
    /// point lies inside the box.
    pub fn distance_to_point_sq(&self, pt: Vec3) -> (r: i128)
        requires
            in_coord_range(self.min),
            in_coord_range(self.max),
            in_coord_range(pt),
        ensures
            r == spec_axis_delta(self.min.x as int, self.max.x as int, pt.x as int)
                * spec_axis_delta(self.min.x as int, self.max.x as int, pt.x as int)
                + spec_axis_delta(self.min.y as int, self.max.y as int, pt.y as int)
                * spec_axis_delta(self.min.y as int, self.max.y as int, pt.y as int)
                + spec_axis_delta(self.min.z as int, self.max.z as int, pt.z as int)
                * spec_axis_delta(self.min.z as int, self.max.z as int, pt.z as int),
    {
        let dx = axis_delta(self.min.x, self.max.x, pt.x);
        let dy = axis_delta(self.min.y, self.max.y, pt.y);
        let dz = axis_delta(self.min.z, self.max.z, pt.z);
        proof {
            lemma_square_bound(dx as int, 2 * COORD_LIMIT as int);
            lemma_square_bound(dy as int, 2 * COORD_LIMIT as int);
            lemma_square_bound(dz as int, 2 * COORD_LIMIT as int);
        }
        dx * dx + dy * dy + dz * dz
    }
}

proof fn lemma_square_bound(v: int, b: int)
    requires
        0 <= v <= b,
    ensures
        0 <= v * v <= b * b,
{
    vstd::arithmetic::mul::lemma_mul_inequality(v, b, b);
    vstd::arithmetic::mul::lemma_mul_inequality(v, b, v);
    vstd::arithmetic::mul::lemma_mul_nonnegative(v, v);
    vstd::arithmetic::mul::lemma_mul_is_commutative(v, b);
}

/// Exec mirror of `spec_axis_delta`, widened so products cannot overflow.
fn axis_delta(lo: i64, hi: i64, p: i64) -> (r: i128)
    requires
        -COORD_LIMIT <= lo <= COORD_LIMIT,
        -COORD_LIMIT <= hi <= COORD_LIMIT,
        -COORD_LIMIT <= p <= COORD_LIMIT,
    ensures
        r == spec_axis_delta(lo as int, hi as int, p as int),
        0 <= r <= 2 * COORD_LIMIT,
{
    if p < lo {
        (lo as i128) - (p as i128)
    } else if hi < p {
        (p as i128) - (hi as i128)
    } else {
        0
    }
}

/// Merging boxes is commutative.
pub proof fn lemma_merge_commutative(a: AABB, b: AABB)
    ensures
        spec_merge(a, b) == spec_merge(b, a),
{
}

/// Merging boxes is associative.
pub proof fn lemma_merge_associative(a: AABB, b: AABB, c: AABB)
    ensures
        spec_merge(spec_merge(a, b), c) == spec_merge(a, spec_merge(b, c)),
{
}

/// Merging a box with itself changes nothing.
pub proof fn lemma_merge_idempotent(a: AABB)
    ensures
        spec_merge(a, a) == a,
{
}

/// Covering one more point is the same as merging with the degenerate box
/// at that point.
pub proof fn lemma_add_pt_is_merge(a: AABB, pt: Vec3)
    ensures
        spec_add_pt(a, pt) == spec_merge(a, AABB { min: pt, max: pt }),
{
}

} // verus!
