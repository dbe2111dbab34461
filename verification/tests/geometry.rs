use terrain_lod::aabb::{Vec3, AABB};
use terrain_lod::geometry::{Frustum, FrustumParams, IntersectionStatus, Plane};

fn v(x: i64, y: i64, z: i64) -> Vec3 {
    Vec3::new(x, y, z)
}

#[test]
fn issa_test_flight() {
    let plane = Plane::new(v(0, 1, 0), v(0, 1, 0));

    assert_eq!(plane.distance(&v(0, 2, 1)), 1);
    assert_eq!(plane.distance(&v(0, 0, 1)), -1);
}

#[test]
fn issa_positive_test() {
    let abox = AABB::new(v(-1, -1, -1), v(1, 1, 1));
    println!("{:?}", abox.get_vertex_n(&v(1, 1, 1)));
}

#[test]
fn issa_frustrating_test() {}

#[test]
fn vertex_selection_covers_all_octants() {
    let b = AABB::new(v(-1, -2, -3), v(4, 5, 6));
    // For each sign combination of the normal, get_vertex_p picks max on
    // non-negative axes and min on negative ones; get_vertex_n the opposite.
    for &sx in &[-1i64, 1] {
        for &sy in &[-1i64, 1] {
            for &sz in &[-1i64, 1] {
                let n = v(sx, sy, sz);
                let p = b.get_vertex_p(&n);
                let q = b.get_vertex_n(&n);
                assert_eq!(p.x, if sx >= 0 { 4 } else { -1 });
                assert_eq!(p.y, if sy >= 0 { 5 } else { -2 });
                assert_eq!(p.z, if sz >= 0 { 6 } else { -3 });
                assert_eq!(q.x, if sx >= 0 { -1 } else { 4 });
                assert_eq!(q.y, if sy >= 0 { -2 } else { 5 });
                assert_eq!(q.z, if sz >= 0 { -3 } else { 6 });
            }
        }
    }
    // A zero component counts as non-negative.
    assert_eq!(b.get_vertex_p(&v(0, 0, 0)), v(4, 5, 6));
    assert_eq!(b.get_vertex_n(&v(0, 0, 0)), v(-1, -2, -3));
}

#[test]
fn merge_is_commutative_and_associative() {
    let mk = |a: [i64; 6]| AABB::new(v(a[0], a[1], a[2]), v(a[3], a[4], a[5]));
    let a0 = mk([0, 0, 0, 1, 1, 1]);
    let b = mk([-5, 2, -1, 3, 8, 0]);
    let c = mk([7, -9, 4, 9, -2, 11]);

    // (a += b) then (a += c)
    let mut x = a0;
    x.merge(&b);
    x.merge(&c);
    // a merged with c, then b
    let mut y = a0;
    y.merge(&c);
    y.merge(&b);
    // b merged with (a merged with c)
    let mut z = b;
    let mut ac = a0;
    ac.merge(&c);
    z.merge(&ac);

    assert_eq!(x, y);
    assert_eq!(x, z);

    // Idempotent on self-merge.
    let mut w = a0;
    let w2 = a0;
    w.merge(&w2);
    assert_eq!(w, a0);
}

#[test]
fn add_pt_extends_the_box() {
    let mut b = AABB::new(v(0, 0, 0), v(1, 1, 1));
    b.add_pt(v(5, -3, 0));
    assert_eq!(b, AABB::new(v(0, -3, 0), v(5, 1, 1)));
    b.add_pt(v(0, 0, 0));
    assert_eq!(b, AABB::new(v(0, -3, 0), v(5, 1, 1)));
}

#[test]
fn center_and_distance() {
    let b = AABB::new(v(0, 0, 0), v(10, 4, 2));
    assert_eq!(b.center(), v(5, 2, 1));
    // Point inside: distance zero.
    assert_eq!(b.distance_to_point_sq(v(3, 2, 1)), 0);
    // Point beyond max on x and below min on y: 2^2 + 3^2.
    assert_eq!(b.distance_to_point_sq(v(12, -3, 1)), 13);
}

/// A camera at the origin looking down negative z with a symmetric
/// 90-degree field of view and aspect ratio one; in fixed-point integers
/// tan(45 degrees) is exactly one, so the half extents equal the far
/// distance.
fn test_frustum() -> Frustum {
    Frustum::new(&FrustumParams {
        pos: v(0, 0, 0),
        front: v(0, 0, -1),
        right: v(1, 0, 0),
        up: v(0, 1, 0),
        near_z: 1,
        far_z: 100,
        half_h: 100,
        half_v: 100,
    })
}

#[test]
fn frustum_planes_follow_the_camera() {
    let f = test_frustum();
    // Near and far planes sit on the view axis, facing each other.
    assert_eq!(f.near_face.normal, v(0, 0, -1));
    assert_eq!(f.near_face.point, v(0, 0, -1));
    assert_eq!(f.far_face.normal, v(0, 0, 1));
    assert_eq!(f.far_face.point, v(0, 0, -100));
    // The side planes pass through the camera position with inward
    // normals: positive distance for a point well inside the volume.
    let probe = v(0, 0, -50);
    for plane in [f.left_face, f.right_face, f.top_face, f.bottom_face] {
        assert_eq!(plane.point, v(0, 0, 0));
        assert!(plane.distance(&probe) > 0);
    }
}

#[test]
fn frustum_classifies_inside_outside_intersecting() {
    let f = test_frustum();

    // A box centered on the camera axis, well within near and far.
    let inside = AABB::new(v(-10, -10, -60), v(10, 10, -40));
    assert_eq!(f.intersect(&inside), IntersectionStatus::Inside);

    // A box entirely behind the camera position.
    let behind = AABB::new(v(-10, -10, 40), v(10, 10, 60));
    assert_eq!(f.intersect(&behind), IntersectionStatus::Outside);

    // A box straddling the far plane.
    let straddling = AABB::new(v(-10, -10, -120), v(10, 10, -80));
    assert_eq!(f.intersect(&straddling), IntersectionStatus::Intersecting);
}

#[test]
fn frustum_side_planes_cull() {
    let f = test_frustum();

    // Far to the right of the view cone.
    let right_out = AABB::new(v(200, -10, -60), v(220, 10, -40));
    assert_eq!(f.intersect(&right_out), IntersectionStatus::Outside);

    // Far to the left.
    let left_out = AABB::new(v(-220, -10, -60), v(-200, 10, -40));
    assert_eq!(f.intersect(&left_out), IntersectionStatus::Outside);

    // Far above.
    let top_out = AABB::new(v(-10, 200, -60), v(10, 220, -40));
    assert_eq!(f.intersect(&top_out), IntersectionStatus::Outside);

    // Far below.
    let bottom_out = AABB::new(v(-10, -220, -60), v(10, -200, -40));
    assert_eq!(f.intersect(&bottom_out), IntersectionStatus::Outside);

    // Poking out through the right plane.
    let cutting = AABB::new(v(30, -10, -60), v(80, 10, -40));
    assert_eq!(f.intersect(&cutting), IntersectionStatus::Intersecting);
}
