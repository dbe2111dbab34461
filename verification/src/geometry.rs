//! View-frustum culling: six inward-oriented planes and the two-corner
//! box-vs-plane test, all in exact fixed-point integer arithmetic.

use vstd::prelude::*;

use crate::aabb::{in_coord_range, spec_vertex_n, spec_vertex_p, AABB, Vec3, COORD_LIMIT};

verus! {

/// How a box lies relative to the view volume.
#[derive(Clone, Copy, Debug, PartialEq, Eq, Structural)]
pub enum IntersectionStatus {
    Outside,
    Intersecting,
    Inside,
}

/// Bound on the components of a plane normal produced by `Frustum::new`.
pub const NORMAL_LIMIT: i64 = 0x4000_0000_0000_0000;

/// Bound on the direction vectors a frustum is built from.
pub const DIR_LIMIT: i64 = 0x10_0000;

/// Bound on the scalar camera parameters a frustum is built from.
pub const SCALAR_LIMIT: i64 = 0x10_0000;

/// Bound on the camera position a frustum is built from.
pub const POS_LIMIT: i64 = 0x100_0000_0000;

/// Bound on the frustum edge vectors built from the above.
pub const EDGE_LIMIT: i64 = 0x200_0000_0000;

/// All three components within `-b ..= b`.
pub open spec fn vec_in_range(v: Vec3, b: int) -> bool {
    &&& -b <= v.x <= b
    &&& -b <= v.y <= b
    &&& -b <= v.z <= b
}

pub open spec fn spec_neg(v: Vec3) -> Vec3 {
    Vec3 { x: (-v.x) as i64, y: (-v.y) as i64, z: (-v.z) as i64 }
}

pub open spec fn spec_add(a: Vec3, b: Vec3) -> Vec3 {
    Vec3 { x: (a.x + b.x) as i64, y: (a.y + b.y) as i64, z: (a.z + b.z) as i64 }
}

pub open spec fn spec_sub(a: Vec3, b: Vec3) -> Vec3 {
    Vec3 { x: (a.x - b.x) as i64, y: (a.y - b.y) as i64, z: (a.z - b.z) as i64 }
}

pub open spec fn spec_scale(v: Vec3, s: int) -> Vec3 {
    Vec3 { x: (v.x * s) as i64, y: (v.y * s) as i64, z: (v.z * s) as i64 }
}

pub open spec fn spec_cross(a: Vec3, b: Vec3) -> Vec3 {
    Vec3 {
        x: (a.y * b.z - a.z * b.y) as i64,
        y: (a.z * b.x - a.x * b.z) as i64,
        z: (a.x * b.y - a.y * b.x) as i64,
    }
}

/// A plane given by a normal and a point on it; query points on the side
/// the normal points to have positive signed distance.
#[derive(Clone, Copy, Debug, PartialEq, Eq, Structural)]
pub struct Plane {
    pub normal: Vec3,
    pub point: Vec3,
}

/// Coordinates on which `Plane::distance` cannot overflow.
pub open spec fn plane_ok(p: Plane) -> bool {
    &&& vec_in_range(p.normal, NORMAL_LIMIT as int)
    &&& in_coord_range(p.point)
}

impl Plane {
    pub fn new(normal: Vec3, point: Vec3) -> (r: Plane)
        ensures
            r == (Plane { normal, point }),
    {
        Plane { normal, point }
    }

    /// Signed distance of `q` from the plane, scaled by the length of the
    /// normal: `normal . (q - point)`.
    pub open spec fn spec_distance(&self, q: Vec3) -> int {
        self.normal.x * (q.x - self.point.x) + self.normal.y * (q.y - self.point.y)
            + self.normal.z * (q.z - self.point.z)
    }

    /// Signed distance of `q` from the plane, scaled by the length of the
    /// normal; non-negative exactly on the side the normal points to.
    pub fn distance(&self, q: &Vec3) -> (r: i128)
        requires
            plane_ok(*self),
            in_coord_range(*q),
        ensures
            r == self.spec_distance(*q),
    {
        let dx = (q.x as i128) - (self.point.x as i128);
        let dy = (q.y as i128) - (self.point.y as i128);
        let dz = (q.z as i128) - (self.point.z as i128);
        proof {
            lemma_abs_mul_bound(
                self.normal.x as int, dx as int, NORMAL_LIMIT as int, 2 * COORD_LIMIT as int);
            lemma_abs_mul_bound(
                self.normal.y as int, dy as int, NORMAL_LIMIT as int, 2 * COORD_LIMIT as int);
            lemma_abs_mul_bound(
                self.normal.z as int, dz as int, NORMAL_LIMIT as int, 2 * COORD_LIMIT as int);
        }
        (self.normal.x as i128) * dx + (self.normal.y as i128) * dy + (self.normal.z as i128) * dz
    }
}

/// The magnitude of a product is bounded by the product of the bounds.
pub proof fn lemma_abs_mul_bound(a: int, b: int, bound_a: int, bound_b: int)
    requires
        -bound_a <= a <= bound_a,
        -bound_b <= b <= bound_b,
    ensures
        -(bound_a * bound_b) <= a * b <= bound_a * bound_b,
{
    assert(-(bound_a * bound_b) <= a * b <= bound_a * bound_b) by (nonlinear_arith)
        requires
            -bound_a <= a <= bound_a,
            -bound_b <= b <= bound_b,
    ;
}

/// The camera-derived quantities a frustum is built from, already in
/// fixed-point units: the position, the (unnormalized) view basis, the
/// near and far distances along the front vector, and the far plane's
/// half extents `half_v = far_z * tan(fov / 2)`, `half_h` that times the
/// aspect ratio.  Scaling any of the basis vectors or half extents by a
/// positive factor does not change what the frustum classifies.
#[derive(Clone, Copy, Debug, PartialEq, Eq, Structural)]
pub struct FrustumParams {
    pub pos: Vec3,
    pub front: Vec3,
    pub right: Vec3,
    pub up: Vec3,
    pub near_z: i64,
    pub far_z: i64,
    pub half_h: i64,
    pub half_v: i64,
}

pub open spec fn params_ok(p: FrustumParams) -> bool {
    &&& vec_in_range(p.pos, POS_LIMIT as int)
    &&& vec_in_range(p.front, DIR_LIMIT as int)
    &&& vec_in_range(p.right, DIR_LIMIT as int)
    &&& vec_in_range(p.up, DIR_LIMIT as int)
    &&& -SCALAR_LIMIT <= p.near_z <= SCALAR_LIMIT
    &&& -SCALAR_LIMIT <= p.far_z <= SCALAR_LIMIT
    &&& -SCALAR_LIMIT <= p.half_h <= SCALAR_LIMIT
    &&& -SCALAR_LIMIT <= p.half_v <= SCALAR_LIMIT
}

/// The six planes of a view volume, each oriented inward.
#[derive(Clone, Copy, Debug, PartialEq, Eq, Structural)]
pub struct Frustum {
    pub top_face: Plane,
    pub bottom_face: Plane,
    pub left_face: Plane,
    pub right_face: Plane,
    pub near_face: Plane,
    pub far_face: Plane,
}

impl Frustum {
    pub open spec fn wf(&self) -> bool {
        &&& plane_ok(self.top_face)
        &&& plane_ok(self.bottom_face)
        &&& plane_ok(self.left_face)
        &&& plane_ok(self.right_face)
        &&& plane_ok(self.near_face)
        &&& plane_ok(self.far_face)
    }

    /// Some plane has the whole box strictly on its outer side: the
    /// corner furthest toward its normal is already below it.
    pub open spec fn spec_outside(&self, b: AABB) -> bool {
        ||| self.far_face.spec_distance(spec_vertex_p(b, self.far_face.normal)) < 0
        ||| self.near_face.spec_distance(spec_vertex_p(b, self.near_face.normal)) < 0
        ||| self.top_face.spec_distance(spec_vertex_p(b, self.top_face.normal)) < 0
        ||| self.bottom_face.spec_distance(spec_vertex_p(b, self.bottom_face.normal)) < 0
        ||| self.right_face.spec_distance(spec_vertex_p(b, self.right_face.normal)) < 0
        ||| self.left_face.spec_distance(spec_vertex_p(b, self.left_face.normal)) < 0
    }

    /// Some plane cuts the box: the corner furthest against its normal
    /// is below it.
    pub open spec fn spec_straddles(&self, b: AABB) -> bool {
        ||| self.far_face.spec_distance(spec_vertex_n(b, self.far_face.normal)) < 0
        ||| self.near_face.spec_distance(spec_vertex_n(b, self.near_face.normal)) < 0
        ||| self.top_face.spec_distance(spec_vertex_n(b, self.top_face.normal)) < 0
        ||| self.bottom_face.spec_distance(spec_vertex_n(b, self.bottom_face.normal)) < 0
        ||| self.right_face.spec_distance(spec_vertex_n(b, self.right_face.normal)) < 0
        ||| self.left_face.spec_distance(spec_vertex_n(b, self.left_face.normal)) < 0
    }

    /// The classification `intersect` returns: `Outside` when some plane
    /// excludes the box outright, otherwise `Intersecting` when some
    /// plane cuts it, otherwise `Inside`.
    pub open spec fn spec_intersect(&self, b: AABB) -> IntersectionStatus {
        if self.spec_outside(b) {
            IntersectionStatus::Outside
        } else if self.spec_straddles(b) {
            IntersectionStatus::Intersecting
        } else {
            IntersectionStatus::Inside
        }
    }

    /// Classifies a box against the view volume with the two-corner test:
    /// exact for the outside / not-outside decision, conservative for
    /// inside vs. intersecting.
    pub fn intersect(&self, abox: &AABB) -> (r: IntersectionStatus)
        requires
            self.wf(),
            in_coord_range(abox.min),
            in_coord_range(abox.max),
        ensures
            r == self.spec_intersect(*abox),
    {
        let mut intersecting = false;

        let a = self.far_face.distance(&abox.get_vertex_p(&self.far_face.normal));
        if a < 0 {
            return IntersectionStatus::Outside;
        }
        if self.far_face.distance(&abox.get_vertex_n(&self.far_face.normal)) < 0 {
            intersecting = true;
        }

        let a = self.near_face.distance(&abox.get_vertex_p(&self.near_face.normal));
        if a < 0 {
            return IntersectionStatus::Outside;
        }
        if self.near_face.distance(&abox.get_vertex_n(&self.near_face.normal)) < 0 {
            intersecting = true;
        }

        let a = self.top_face.distance(&abox.get_vertex_p(&self.top_face.normal));
        if a < 0 {
            return IntersectionStatus::Outside;
        }
        if self.top_face.distance(&abox.get_vertex_n(&self.top_face.normal)) < 0 {
            intersecting = true;
        }

        let a = self.bottom_face.distance(&abox.get_vertex_p(&self.bottom_face.normal));
        if a < 0 {
            return IntersectionStatus::Outside;
        }
        if self.bottom_face.distance(&abox.get_vertex_n(&self.bottom_face.normal)) < 0 {
            intersecting = true;
        }

        let a = self.right_face.distance(&abox.get_vertex_p(&self.right_face.normal));
        if a < 0 {
            return IntersectionStatus::Outside;
        }
        if self.right_face.distance(&abox.get_vertex_n(&self.right_face.normal)) < 0 {
            intersecting = true;
        }

        let a = self.left_face.distance(&abox.get_vertex_p(&self.left_face.normal));
        if a < 0 {
            return IntersectionStatus::Outside;
        }
        if self.left_face.distance(&abox.get_vertex_n(&self.left_face.normal)) < 0 {
            intersecting = true;
        }

        if intersecting {
            IntersectionStatus::Intersecting
        } else {
            IntersectionStatus::Inside
        }
    }

    /// Builds the six planes from camera-derived parameters.  The side
    /// planes pass through the camera position with normals taken as
    /// cross products of the frustum edge vectors with the view basis,
    /// oriented inward; the near and far planes are orthogonal to the
    /// front vector.
    pub fn new(p: &FrustumParams) -> (r: Frustum)
        requires
            params_ok(*p),
        ensures
            r.wf(),
            r.near_face == (Plane {
                normal: p.front,
                point: spec_add(p.pos, spec_scale(p.front, p.near_z as int)),
            }),
            r.far_face == (Plane {
                normal: spec_neg(p.front),
                point: spec_add(p.pos, spec_scale(p.front, p.far_z as int)),
            }),
            r.right_face == (Plane {
                normal: spec_neg(spec_cross(
                    spec_add(spec_scale(p.front, p.far_z as int), spec_scale(p.right, p.half_h as int)),
                    p.up,
                )),
                point: p.pos,
            }),
            r.left_face == (Plane {
                normal: spec_neg(spec_cross(
                    p.up,
                    spec_sub(spec_scale(p.front, p.far_z as int), spec_scale(p.right, p.half_h as int)),
                )),
                point: p.pos,
            }),
            r.top_face == (Plane {
                normal: spec_cross(
                    spec_add(spec_scale(p.front, p.far_z as int), spec_scale(p.up, p.half_v as int)),
                    p.right,
                ),
                point: p.pos,
            }),
            r.bottom_face == (Plane {
                normal: spec_cross(
                    p.right,
                    spec_sub(spec_scale(p.front, p.far_z as int), spec_scale(p.up, p.half_v as int)),
                ),
                point: p.pos,
            }),
    {
        let front_far = vscale(&p.front, p.far_z);
        let near_pt = vadd_point(&p.pos, &vscale(&p.front, p.near_z));
        let far_pt = vadd_point(&p.pos, &front_far);

        let edge_right = vadd_edge(&front_far, &vscale(&p.right, p.half_h));
        let edge_left = vsub_edge(&front_far, &vscale(&p.right, p.half_h));
        let edge_top = vadd_edge(&front_far, &vscale(&p.up, p.half_v));
        let edge_bottom = vsub_edge(&front_far, &vscale(&p.up, p.half_v));

        Frustum {
            near_face: Plane { normal: p.front, point: near_pt },
            far_face: Plane { normal: vneg_dir(&p.front), point: far_pt },
            right_face: Plane { normal: vneg_normal(&vcross(&edge_right, &p.up)), point: p.pos },
            left_face: Plane {
                normal: vneg_normal(&vcross_rev(&p.up, &edge_left)),
                point: p.pos,
            },
            top_face: Plane { normal: vcross(&edge_top, &p.right), point: p.pos },
            bottom_face: Plane { normal: vcross_rev(&p.right, &edge_bottom), point: p.pos },
        }
    }
}

/// A direction scaled by a camera scalar.
fn vscale(v: &Vec3, s: i64) -> (r: Vec3)
    requires
        vec_in_range(*v, DIR_LIMIT as int),
        -SCALAR_LIMIT <= s <= SCALAR_LIMIT,
    ensures
        r == spec_scale(*v, s as int),
        vec_in_range(r, DIR_LIMIT as int * SCALAR_LIMIT as int),
{
    proof {
        lemma_abs_mul_bound(v.x as int, s as int, DIR_LIMIT as int, SCALAR_LIMIT as int);
        lemma_abs_mul_bound(v.y as int, s as int, DIR_LIMIT as int, SCALAR_LIMIT as int);
        lemma_abs_mul_bound(v.z as int, s as int, DIR_LIMIT as int, SCALAR_LIMIT as int);
    }
    Vec3 { x: v.x * s, y: v.y * s, z: v.z * s }
}

/// The camera position displaced by a scaled direction.
fn vadd_point(a: &Vec3, b: &Vec3) -> (r: Vec3)
    requires
        vec_in_range(*a, POS_LIMIT as int),
        vec_in_range(*b, DIR_LIMIT as int * SCALAR_LIMIT as int),
    ensures
        r == spec_add(*a, *b),
        in_coord_range(r),
{
    Vec3 { x: a.x + b.x, y: a.y + b.y, z: a.z + b.z }
}

/// The sum of two scaled directions: a frustum edge vector.
fn vadd_edge(a: &Vec3, b: &Vec3) -> (r: Vec3)
    requires
        vec_in_range(*a, DIR_LIMIT as int * SCALAR_LIMIT as int),
        vec_in_range(*b, DIR_LIMIT as int * SCALAR_LIMIT as int),
    ensures
        r == spec_add(*a, *b),
        vec_in_range(r, EDGE_LIMIT as int),
{
    Vec3 { x: a.x + b.x, y: a.y + b.y, z: a.z + b.z }
}

/// The difference of two scaled directions: a frustum edge vector.
fn vsub_edge(a: &Vec3, b: &Vec3) -> (r: Vec3)
    requires
        vec_in_range(*a, DIR_LIMIT as int * SCALAR_LIMIT as int),
        vec_in_range(*b, DIR_LIMIT as int * SCALAR_LIMIT as int),
    ensures
        r == spec_sub(*a, *b),
        vec_in_range(r, EDGE_LIMIT as int),
{
    Vec3 { x: a.x - b.x, y: a.y - b.y, z: a.z - b.z }
}

/// Cross product of an edge vector with a camera direction.
fn vcross(a: &Vec3, b: &Vec3) -> (r: Vec3)
    requires
        vec_in_range(*a, EDGE_LIMIT as int),
        vec_in_range(*b, DIR_LIMIT as int),
    ensures
        r == spec_cross(*a, *b),
        vec_in_range(r, NORMAL_LIMIT as int),
{
    proof {
        lemma_cross_bounds(*a, *b, EDGE_LIMIT as int, DIR_LIMIT as int);
    }
    Vec3 {
        x: a.y * b.z - a.z * b.y,
        y: a.z * b.x - a.x * b.z,
        z: a.x * b.y - a.y * b.x,
    }
}

/// Cross product of a camera direction with an edge vector.
fn vcross_rev(a: &Vec3, b: &Vec3) -> (r: Vec3)
    requires
        vec_in_range(*a, DIR_LIMIT as int),
        vec_in_range(*b, EDGE_LIMIT as int),
    ensures
        r == spec_cross(*a, *b),
        vec_in_range(r, NORMAL_LIMIT as int),
{
    proof {
        lemma_cross_bounds(*a, *b, DIR_LIMIT as int, EDGE_LIMIT as int);
    }
    Vec3 {
        x: a.y * b.z - a.z * b.y,
        y: a.z * b.x - a.x * b.z,
        z: a.x * b.y - a.y * b.x,
    }
}

proof fn lemma_cross_bounds(a: Vec3, b: Vec3, bound_a: int, bound_b: int)
    requires
        vec_in_range(a, bound_a),
        vec_in_range(b, bound_b),
        0 <= bound_a,
        0 <= bound_b,
        2 * (bound_a * bound_b) <= i64::MAX,
    ensures
        vec_in_range(spec_cross(a, b), 2 * (bound_a * bound_b)),
        -(bound_a * bound_b) <= a.x * b.y <= bound_a * bound_b,
        -(bound_a * bound_b) <= a.x * b.z <= bound_a * bound_b,
        -(bound_a * bound_b) <= a.y * b.x <= bound_a * bound_b,
        -(bound_a * bound_b) <= a.y * b.z <= bound_a * bound_b,
        -(bound_a * bound_b) <= a.z * b.x <= bound_a * bound_b,
        -(bound_a * bound_b) <= a.z * b.y <= bound_a * bound_b,
{
    lemma_abs_mul_bound(a.x as int, b.y as int, bound_a, bound_b);
    lemma_abs_mul_bound(a.x as int, b.z as int, bound_a, bound_b);
    lemma_abs_mul_bound(a.y as int, b.x as int, bound_a, bound_b);
    lemma_abs_mul_bound(a.y as int, b.z as int, bound_a, bound_b);
    lemma_abs_mul_bound(a.z as int, b.x as int, bound_a, bound_b);
    lemma_abs_mul_bound(a.z as int, b.y as int, bound_a, bound_b);
}

/// Negation of a camera direction.
fn vneg_dir(v: &Vec3) -> (r: Vec3)
    requires
        vec_in_range(*v, DIR_LIMIT as int),
    ensures
        r == spec_neg(*v),
        vec_in_range(r, NORMAL_LIMIT as int),
{
    Vec3 { x: -v.x, y: -v.y, z: -v.z }
}

/// Negation of a computed plane normal.
fn vneg_normal(v: &Vec3) -> (r: Vec3)
    requires
        vec_in_range(*v, NORMAL_LIMIT as int),
    ensures
        r == spec_neg(*v),
        vec_in_range(r, NORMAL_LIMIT as int),
{
    Vec3 { x: -v.x, y: -v.y, z: -v.z }
}

} // verus!
