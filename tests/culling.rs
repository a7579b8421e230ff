use pi_scene_cull::culling::{check_boundings, BoundingBox, BoundingInfo, BoundingSphere, ECullingStrategy};
use pi_scene_cull::geometry::{FrustumPlanes, Matrix, Plane, Vector3};

fn plane(x: i32, y: i32, z: i32, d: i32) -> Plane {
    Plane::new(Vector3::new(x, y, z), d)
}

/// A camera at z = -10 looking down +Z with a 90 degree field of view.
fn camera_frustum() -> FrustumPlanes {
    FrustumPlanes::new(
        plane(0, 0, 1, 9),
        plane(0, 0, -1, 100),
        plane(1, 0, 1, 10),
        plane(-1, 0, 1, 10),
        plane(0, -1, 1, 10),
        plane(0, 1, 1, 10),
    )
}

/// The axis-aligned box from (-50, -50, -50) to (50, 50, 50).
fn box_frustum() -> FrustumPlanes {
    FrustumPlanes::new(
        plane(0, 0, 1, 50),
        plane(0, 0, -1, 50),
        plane(1, 0, 0, 50),
        plane(-1, 0, 0, 50),
        plane(0, -1, 0, 50),
        plane(0, 1, 0, 50),
    )
}

fn unit_cube_at(x: i32, y: i32, z: i32) -> BoundingInfo {
    let mut b = BoundingInfo::default();
    b.update(&Matrix::translation(Vector3::new(x, y, z)));
    b
}

#[test]
fn default_unit_cube_is_visible() {
    let b = BoundingInfo::default();
    assert!(b.is_in_frustum(&camera_frustum()));
}

#[test]
fn translated_unit_cube_is_culled() {
    let mut b = BoundingInfo::default();
    assert!(b.is_in_frustum(&camera_frustum()));
    b.update(&Matrix::translation(Vector3::new(1000, 0, 0)));
    assert!(!b.is_in_frustum(&camera_frustum()));
}

#[test]
fn reset_moves_and_resizes() {
    let mut b = BoundingInfo::default();
    b.reset(&Vector3::new(0, 0, 0), &Vector3::new(2, 2, 2), &Matrix::translation(Vector3::new(0, 0, 200)));
    assert!(!b.is_in_frustum(&camera_frustum()));
    b.reset(&Vector3::new(0, 0, 0), &Vector3::new(2, 2, 2), &Matrix::identity());
    assert!(b.is_in_frustum(&camera_frustum()));
}

#[test]
fn box_fully_inside_is_visible() {
    let f = box_frustum();
    for (x, y, z) in [(0, 0, 0), (49, 0, 0), (-49, -49, -49), (0, 49, 49)] {
        let mut b = unit_cube_at(x, y, z);
        assert!(b.is_in_frustum(&f));
        b.culling_strategy = ECullingStrategy::Optimistic;
        assert!(b.is_in_frustum(&f));
    }
}

#[test]
fn sphere_outside_one_plane_is_culled() {
    let f = box_frustum();
    let mut b = unit_cube_at(0, 0, 60);
    assert!(!b.is_in_frustum(&f));
    b.culling_strategy = ECullingStrategy::Optimistic;
    assert!(!b.is_in_frustum(&f));
}

#[test]
fn straddling_box_is_visible() {
    let f = box_frustum();
    // corners at z = -51 and z = -49 straddle the near plane
    let b = unit_cube_at(0, 0, -50);
    assert!(b.is_in_frustum(&f));
    let bb = BoundingBox::new(&Vector3::new(-1, -1, -51), &Vector3::new(1, 1, -49), &Matrix::identity());
    assert!(bb.is_in_frustum(&f));
}

#[test]
fn touching_corner_counts_as_inside() {
    let f = box_frustum();
    // the nearest corners lie exactly on the plane x = 50
    let b = unit_cube_at(51, 0, 0);
    assert!(b.is_in_frustum(&f));
    let b = unit_cube_at(52, 0, 0);
    assert!(!b.is_in_frustum(&f));
}

#[test]
fn optimistic_skips_box_stage() {
    let f = box_frustum();
    let mut b = BoundingInfo::default();
    // a thin slab just behind x = 50 whose large sphere still crosses the plane
    b.reset(&Vector3::new(51, -10, -10), &Vector3::new(52, 10, 10), &Matrix::identity());
    assert!(!b.is_in_frustum(&f));
    b.culling_strategy = ECullingStrategy::Optimistic;
    assert!(b.is_in_frustum(&f));
}

#[test]
fn sphere_test_uses_scaled_radius() {
    let f = box_frustum();
    let mut s = BoundingSphere::new(&Vector3::new(-1, -1, -1), &Vector3::new(1, 1, 1), &Matrix::identity());
    assert_eq!(s.diameter_world_sq, 12);
    assert_eq!((s.center_world2.x, s.center_world2.y, s.center_world2.z), (0, 0, 0));
    let scaled = Matrix {
        row0: Vector3::new(3, 0, 0),
        row1: Vector3::new(0, 1, 0),
        row2: Vector3::new(0, 0, 1),
        row3: Vector3::new(55, 0, 0),
    };
    s.update(&scaled);
    assert_eq!(s.diameter_world_sq, 108);
    assert_eq!(s.center_world2.x, 110);
    // distance 5 from x = 50 against a radius of sqrt(27) > 5
    assert!(s.is_in_frustum(&f));
}

#[test]
fn box_corners_follow_transform() {
    let m = Matrix::translation(Vector3::new(10, 20, 30));
    let b = BoundingBox::new(&Vector3::new(-1, -2, -3), &Vector3::new(1, 2, 3), &m);
    assert_eq!(b.corners.len(), 8);
    assert_eq!((b.corners[0].x, b.corners[0].y, b.corners[0].z), (9, 18, 27));
    assert_eq!((b.corners[7].x, b.corners[7].y, b.corners[7].z), (11, 22, 33));
}

#[test]
fn check_boundings_empty() {
    let mut result = vec![true, false];
    check_boundings(&Vec::new(), &camera_frustum(), &mut result);
    assert!(result.is_empty());
}

#[test]
fn check_boundings_keeps_order() {
    let f = box_frustum();
    let boundings = vec![unit_cube_at(0, 0, 0), unit_cube_at(100, 0, 0), unit_cube_at(0, -49, 0), unit_cube_at(0, 0, -90)];
    let mut result = Vec::new();
    check_boundings(&boundings, &f, &mut result);
    assert_eq!(result, vec![true, false, true, false]);
    for (i, b) in boundings.iter().enumerate() {
        assert_eq!(result[i], b.is_in_frustum(&f));
    }
}

#[test]
fn rotated_straddling_box_is_visible() {
    let f = box_frustum();
    let rotated = Matrix {
        row0: Vector3::new(0, 1, 0),
        row1: Vector3::new(-1, 0, 0),
        row2: Vector3::new(0, 0, 1),
        row3: Vector3::new(0, 0, -50),
    };
    let mut b = BoundingInfo::default();
    b.reset(&Vector3::new(-3, -1, -2), &Vector3::new(3, 1, 2), &rotated);
    assert!(b.is_in_frustum(&f));
    b.culling_strategy = ECullingStrategy::Optimistic;
    assert!(b.is_in_frustum(&f));
}

#[test]
fn world_extents_of_rotated_box() {
    let rotated = Matrix {
        row0: Vector3::new(0, 1, 0),
        row1: Vector3::new(-1, 0, 0),
        row2: Vector3::new(0, 0, 1),
        row3: Vector3::new(10, 20, 30),
    };
    let bb = BoundingBox::new(&Vector3::new(-3, -1, -2), &Vector3::new(3, 1, 2), &rotated);
    let lo = bb.minimum_world();
    let hi = bb.maximum_world();
    assert_eq!((lo.x, lo.y, lo.z), (9, 17, 28));
    assert_eq!((hi.x, hi.y, hi.z), (11, 23, 32));
}

#[test]
fn reset_caches_world_directions() {
    let mut b = BoundingInfo::default();
    let zero = Vector3::new(0, 0, 0);
    assert_eq!(b.world_directions(), (zero, zero, zero));
    let m = Matrix {
        row0: Vector3::new(2, 0, 0),
        row1: Vector3::new(0, 3, 0),
        row2: Vector3::new(0, 0, 4),
        row3: Vector3::new(5, 6, 7),
    };
    b.reset(&Vector3::new(-1, -1, -1), &Vector3::new(1, 1, 1), &m);
    assert_eq!(b.world_directions(), (m.row0, m.row1, m.row2));
    b.update(&Matrix::identity());
    assert_eq!(b.world_directions(), (m.row0, m.row1, m.row2));
    let bb = b.bounding_box();
    assert_eq!(bb.world, Matrix::identity());
    let hi = bb.maximum_world();
    assert_eq!((hi.x, hi.y, hi.z), (1, 1, 1));
}
