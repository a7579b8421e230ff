//! Bounding volumes and their visibility against a view frustum.
//!
//! A bounding box is tested through its eight world-space corners, a bounding
//! sphere through its center and radius. Both are derived from the same local
//! extents and world transform; all tests are exact.
use vstd::prelude::*;
use crate::geometry::{
    length_sq, lemma_mul_bound, lemma_square_bound, map_point, max_scale_sq, row_length_sq,
    transform, transform_midpoint2, FrustumPlanes, Matrix, Plane, Point3, Vector3, COORD_LIMIT,
};

verus! {

/// Largest magnitude of a world-space coordinate derived from in-limit inputs.
pub const WORLD_LIMIT: i64 = 7 * 65536 * 65536;

/// How much of the two-stage test a bounding volume runs.
#[derive(Clone, Copy, Debug, PartialEq, Eq, Structural)]
pub enum ECullingStrategy {
    /// Sphere test only.
    Optimistic,
    /// Sphere test, then box test.
    Standard,
}

/// Intersection queries that a volume answers against points, boxes and
/// spheres.
pub trait TIntersect {
    fn intersects_point(&self, p: &Vector3) -> bool;

    fn intersects_box(&self, b: &BoundingBox) -> bool;

    fn intersects_sphere(&self, s: &BoundingSphere) -> bool;

    fn intersects_min_max(&self, min: &Vector3, max: &Vector3) -> bool;
}

/// The eight world-space corners of the box with local extents `min`..`max`.
pub open spec fn box_corners(min: Vector3, max: Vector3, m: Matrix) -> Seq<(int, int, int)> {
    let (ax, ay, az) = (min.x as int, min.y as int, min.z as int);
    let (bx, by, bz) = (max.x as int, max.y as int, max.z as int);
    seq![
        transform(m, (ax, ay, az)),
        transform(m, (bx, ay, az)),
        transform(m, (ax, by, az)),
        transform(m, (bx, by, az)),
        transform(m, (ax, ay, bz)),
        transform(m, (bx, ay, bz)),
        transform(m, (ax, by, bz)),
        transform(m, (bx, by, bz)),
    ]
}

/// Every corner lies strictly on the negative side of `p`.
pub open spec fn corners_outside_plane(corners: Seq<(int, int, int)>, p: Plane) -> bool {
    forall|k: int| 0 <= k < corners.len() ==> p.dot_coordinate(#[trigger] corners[k]) < 0
}

/// No plane of `f` has every corner on its negative side.
pub open spec fn corners_in_frustum(corners: Seq<(int, int, int)>, f: FrustumPlanes) -> bool {
    forall|i: int| 0 <= i < 6 ==> !corners_outside_plane(corners, #[trigger] f.planes[i])
}

/// Twice the world-space center of the sphere around the box `min`..`max`.
pub open spec fn sphere_center2(min: Vector3, max: Vector3, m: Matrix) -> (int, int, int) {
    transform_midpoint2(m, min.spec_pt(), max.spec_pt())
}

/// Square of the world-space diameter: the local diagonal scaled by the largest
/// axis scale of `m`.
pub open spec fn sphere_diameter_sq(min: Vector3, max: Vector3, m: Matrix) -> int {
    length_sq(((max.x - min.x) as int, (max.y - min.y) as int, (max.z - min.z) as int)) * max_scale_sq(m)
}

/// `normal . c2 + 2 d`: twice the scaled signed distance of the center whose
/// double is `c2`.
pub open spec fn plane_dot2(p: Plane, c2: (int, int, int)) -> int {
    p.normal.x * c2.0 + p.normal.y * c2.1 + p.normal.z * c2.2 + 2 * p.d
}

/// The sphere (doubled center `c2`, squared diameter `dsq`) lies entirely on
/// the negative side of `p`: the center's signed distance is below minus the
/// radius. Squared, with the normal's length folded in, the test is exact.
pub open spec fn sphere_outside_plane(c2: (int, int, int), dsq: int, p: Plane) -> bool {
    let s = plane_dot2(p, c2);
    s < 0 && s * s > dsq * length_sq(p.normal.spec_pt())
}

/// No plane of `f` has the sphere entirely on its negative side.
pub open spec fn sphere_in_frustum(c2: (int, int, int), dsq: int, f: FrustumPlanes) -> bool {
    forall|i: int| 0 <= i < 6 ==> !sphere_outside_plane(c2, dsq, #[trigger] f.planes[i])
}

pub open spec fn point_in_world_limit(p: Point3) -> bool {
    -WORLD_LIMIT <= p.x <= WORLD_LIMIT && -WORLD_LIMIT <= p.y <= WORLD_LIMIT && -WORLD_LIMIT <= p.z <= WORLD_LIMIT
}

/// `normal . q + d`, exactly.
fn plane_dot(p: &Plane, q: &Point3) -> (r: i64)
    requires
        p.wf(),
        point_in_world_limit(*q),
    ensures
        r == p.dot_coordinate(q.spec_pt()),
{
    proof {
        let l = COORD_LIMIT as int;
        lemma_mul_bound(p.normal.x as int, q.x as int, l, WORLD_LIMIT as int);
        lemma_mul_bound(p.normal.y as int, q.y as int, l, WORLD_LIMIT as int);
        lemma_mul_bound(p.normal.z as int, q.z as int, l, WORLD_LIMIT as int);
    }
    (p.normal.x as i64) * q.x + (p.normal.y as i64) * q.y + (p.normal.z as i64) * q.z + (p.d as i64)
}

/// `p` is the per-axis minimum over `cs`: below every point on each axis, and
/// reached on each axis by some point.
pub open spec fn is_axis_minimum(cs: Seq<(int, int, int)>, p: (int, int, int)) -> bool {
    &&& forall|k: int| 0 <= k < cs.len() ==> p.0 <= (#[trigger] cs[k]).0 && p.1 <= cs[k].1 && p.2 <= cs[k].2
    &&& exists|k: int| 0 <= k < cs.len() && p.0 == (#[trigger] cs[k]).0
    &&& exists|k: int| 0 <= k < cs.len() && p.1 == (#[trigger] cs[k]).1
    &&& exists|k: int| 0 <= k < cs.len() && p.2 == (#[trigger] cs[k]).2
}

/// `p` is the per-axis maximum over `cs`.
pub open spec fn is_axis_maximum(cs: Seq<(int, int, int)>, p: (int, int, int)) -> bool {
    &&& forall|k: int| 0 <= k < cs.len() ==> p.0 >= (#[trigger] cs[k]).0 && p.1 >= cs[k].1 && p.2 >= cs[k].2
    &&& exists|k: int| 0 <= k < cs.len() && p.0 == (#[trigger] cs[k]).0
    &&& exists|k: int| 0 <= k < cs.len() && p.1 == (#[trigger] cs[k]).1
    &&& exists|k: int| 0 <= k < cs.len() && p.2 == (#[trigger] cs[k]).2
}

/// An axis-aligned box in local space together with its world-space corners.
#[derive(Debug)]
pub struct BoundingBox {
    pub minimum: Vector3,
    pub maximum: Vector3,
    pub world: Matrix,
    pub corners: Vec<Point3>,
}

impl BoundingBox {
    pub open spec fn wf(&self) -> bool {
        &&& self.minimum.wf() && self.maximum.wf() && self.world.wf()
        &&& self.corners@.len() == 8
        &&& forall|k: int| 0 <= k < 8 ==> point_in_world_limit(#[trigger] self.corners@[k])
        &&& forall|k: int|
            0 <= k < 8 ==> (#[trigger] self.corners@[k]).spec_pt() == box_corners(
                self.minimum,
                self.maximum,
                self.world,
            )[k]
    }

    /// The world-space corners.
    pub open spec fn corner_points(&self) -> Seq<(int, int, int)> {
        box_corners(self.minimum, self.maximum, self.world)
    }

    fn corner(m: &Matrix, x: i32, y: i32, z: i32) -> (r: Point3)
        requires
            m.wf(),
            -COORD_LIMIT <= x <= COORD_LIMIT,
            -COORD_LIMIT <= y <= COORD_LIMIT,
            -COORD_LIMIT <= z <= COORD_LIMIT,
        ensures
            r.spec_pt() == transform(*m, (x as int, y as int, z as int)),
            point_in_world_limit(r),
    {
        map_point(m, x as i64, y as i64, z as i64, COORD_LIMIT as i64, 1)
    }

    /// The box `min`..`max` carried into world space by `world`.
    pub fn new(min: &Vector3, max: &Vector3, world: &Matrix) -> (r: BoundingBox)
        requires
            min.wf(),
            max.wf(),
            world.wf(),
        ensures
            r.wf(),
            r.minimum == *min,
            r.maximum == *max,
            r.world == *world,
    {
        let (a, b) = (*min, *max);
        let mut corners: Vec<Point3> = Vec::with_capacity(8);
        corners.push(Self::corner(world, a.x, a.y, a.z));
        corners.push(Self::corner(world, b.x, a.y, a.z));
        corners.push(Self::corner(world, a.x, b.y, a.z));
        corners.push(Self::corner(world, b.x, b.y, a.z));
        corners.push(Self::corner(world, a.x, a.y, b.z));
        corners.push(Self::corner(world, b.x, a.y, b.z));
        corners.push(Self::corner(world, a.x, b.y, b.z));
        corners.push(Self::corner(world, b.x, b.y, b.z));
        let r = BoundingBox { minimum: a, maximum: b, world: *world, corners };
        assert(forall|k: int| 0 <= k < 8 ==> #[trigger] r.corners@[k] == corners@[k]);
        r
    }

    /// Recomputes the box from new extents and a new transform.
    pub fn reset(&mut self, min: &Vector3, max: &Vector3, world: &Matrix)
        requires
            min.wf(),
            max.wf(),
            world.wf(),
        ensures
            final(self).wf(),
            final(self).minimum == *min,
            final(self).maximum == *max,
            final(self).world == *world,
    {
        *self = Self::new(min, max, world);
    }

    /// The world-space minimum: the per-axis minimum over the eight corners.
    pub fn minimum_world(&self) -> (r: Point3)
        requires
            self.wf(),
        ensures
            is_axis_minimum(self.corner_points(), r.spec_pt()),
    {
        let ghost pts = self.corner_points();
        let mut r = self.corners[0];
        let ghost (mut ix, mut iy, mut iz) = (0int, 0int, 0int);
        let mut k: usize = 1;
        while k < 8
            invariant
                1 <= k <= 8,
                self.wf(),
                pts == self.corner_points(),
                forall|j: int| 0 <= j < k ==> r.x <= (#[trigger] pts[j]).0 && r.y <= pts[j].1 && r.z <= pts[j].2,
                0 <= ix < k && r.x == pts[ix].0,
                0 <= iy < k && r.y == pts[iy].1,
                0 <= iz < k && r.z == pts[iz].2,
            decreases 8 - k,
        {
            let c = self.corners[k];
            if c.x < r.x {
                r.x = c.x;
                proof { ix = k as int; }
            }
            if c.y < r.y {
                r.y = c.y;
                proof { iy = k as int; }
            }
            if c.z < r.z {
                r.z = c.z;
                proof { iz = k as int; }
            }
            k += 1;
        }
        assert(r.x == pts[ix].0 && r.y == pts[iy].1 && r.z == pts[iz].2);
        r
    }

    /// The world-space maximum: the per-axis maximum over the eight corners.
    pub fn maximum_world(&self) -> (r: Point3)
        requires
            self.wf(),
        ensures
            is_axis_maximum(self.corner_points(), r.spec_pt()),
    {
        let ghost pts = self.corner_points();
        let mut r = self.corners[0];
        let ghost (mut ix, mut iy, mut iz) = (0int, 0int, 0int);
        let mut k: usize = 1;
        while k < 8
            invariant
                1 <= k <= 8,
                self.wf(),
                pts == self.corner_points(),
                forall|j: int| 0 <= j < k ==> r.x >= (#[trigger] pts[j]).0 && r.y >= pts[j].1 && r.z >= pts[j].2,
                0 <= ix < k && r.x == pts[ix].0,
                0 <= iy < k && r.y == pts[iy].1,
                0 <= iz < k && r.z == pts[iz].2,
            decreases 8 - k,
        {
            let c = self.corners[k];
            if c.x > r.x {
                r.x = c.x;
                proof { ix = k as int; }
            }
            if c.y > r.y {
                r.y = c.y;
                proof { iy = k as int; }
            }
            if c.z > r.z {
                r.z = c.z;
                proof { iz = k as int; }
            }
            k += 1;
        }
        assert(r.x == pts[ix].0 && r.y == pts[iy].1 && r.z == pts[iz].2);
        r
    }

    /// False exactly when some plane has all eight corners on its negative
    /// side; a box that straddles a plane counts as visible.
    pub fn is_in_frustum(&self, frustum: &FrustumPlanes) -> (r: bool)
        requires
            self.wf(),
            frustum.wf(),
        ensures
            r == corners_in_frustum(self.corner_points(), *frustum),
    {
        let ghost pts = self.corner_points();
        let mut i: usize = 0;
        while i < 6
            invariant
                0 <= i <= 6,
                self.wf(),
                frustum.wf(),
                pts == self.corner_points(),
                forall|j: int| 0 <= j < i ==> !corners_outside_plane(pts, #[trigger] frustum.planes[j]),
            decreases 6 - i,
        {
            let plane = frustum.planes[i];
            assert(plane.wf());
            let mut all_out = true;
            let mut k: usize = 0;
            while k < 8
                invariant
                    0 <= k <= 8,
                    self.wf(),
                    plane.wf(),
                    pts == self.corner_points(),
                    all_out == (forall|kk: int| 0 <= kk < k ==> plane.dot_coordinate(#[trigger] pts[kk]) < 0),
                decreases 8 - k,
            {
                let v = plane_dot(&plane, &self.corners[k]);
                if v >= 0 {
                    all_out = false;
                }
                k += 1;
            }
            if all_out {
                assert(corners_outside_plane(pts, frustum.planes[i as int]));
                return false;
            }
            i += 1;
        }
        true
    }
}

/// A sphere around the box `minimum`..`maximum`, in world space.
#[derive(Clone, Copy, Debug)]
pub struct BoundingSphere {
    pub minimum: Vector3,
    pub maximum: Vector3,
    /// Twice the world-space center, so that it stays integral.
    pub center_world2: Point3,
    /// Square of the world-space diameter.
    pub diameter_world_sq: i128,
}

pub open spec fn diameter_in_limit(d: int) -> bool {
    0 <= d <= 36 * (COORD_LIMIT as int) * (COORD_LIMIT as int) * (COORD_LIMIT as int) * (COORD_LIMIT as int)
}

impl BoundingSphere {
    pub open spec fn wf(&self) -> bool {
        &&& self.minimum.wf() && self.maximum.wf()
        &&& point_in_world_limit(self.center_world2)
        &&& diameter_in_limit(self.diameter_world_sq as int)
    }

    /// The sphere is as `world` places it.
    pub open spec fn placed_by(&self, world: Matrix) -> bool {
        &&& self.center_world2.spec_pt() == sphere_center2(self.minimum, self.maximum, world)
        &&& self.diameter_world_sq == sphere_diameter_sq(self.minimum, self.maximum, world)
    }

    pub fn new(min: &Vector3, max: &Vector3, world: &Matrix) -> (r: BoundingSphere)
        requires
            min.wf(),
            max.wf(),
            world.wf(),
        ensures
            r.wf(),
            r.minimum == *min,
            r.maximum == *max,
            r.placed_by(*world),
    {
        let mut r = BoundingSphere {
            minimum: *min,
            maximum: *max,
            center_world2: Point3 { x: 0, y: 0, z: 0 },
            diameter_world_sq: 0,
        };
        r.update(world);
        r
    }

    /// Recomputes the sphere from new extents and a new transform.
    pub fn reset(&mut self, min: &Vector3, max: &Vector3, world: &Matrix)
        requires
            min.wf(),
            max.wf(),
            world.wf(),
        ensures
            final(self).wf(),
            final(self).minimum == *min,
            final(self).maximum == *max,
            final(self).placed_by(*world),
    {
        *self = Self::new(min, max, world);
    }

    /// Moves the sphere to `world`, keeping its local extents.
    pub fn update(&mut self, world: &Matrix)
        requires
            old(self).minimum.wf(),
            old(self).maximum.wf(),
            world.wf(),
        ensures
            final(self).wf(),
            final(self).minimum == old(self).minimum,
            final(self).maximum == old(self).maximum,
            final(self).placed_by(*world),
    {
        let (a, b) = (self.minimum, self.maximum);
        let l = COORD_LIMIT as i64;
        let center = map_point(
            world,
            a.x as i64 + b.x as i64,
            a.y as i64 + b.y as i64,
            a.z as i64 + b.z as i64,
            2 * l,
            2,
        );
        let dx = b.x as i64 - a.x as i64;
        let dy = b.y as i64 - a.y as i64;
        let dz = b.z as i64 - a.z as i64;
        proof {
            lemma_square_bound(dx as int, 2 * COORD_LIMIT);
            lemma_square_bound(dy as int, 2 * COORD_LIMIT);
            lemma_square_bound(dz as int, 2 * COORD_LIMIT);
        }
        let diag = dx * dx + dy * dy + dz * dz;
        let s0 = row_length_sq(&world.row0);
        let s1 = row_length_sq(&world.row1);
        let s2 = row_length_sq(&world.row2);
        let scale = if s0 >= s1 && s0 >= s2 {
            s0
        } else if s1 >= s2 {
            s1
        } else {
            s2
        };
        proof {
            assert(0 <= diag <= 51539607552);
            assert(0 <= scale <= 12884901888);
            lemma_mul_bound(diag as int, scale as int, 51539607552, 12884901888);
            assert(51539607552 * 12884901888 == 36 * (COORD_LIMIT as int) * (COORD_LIMIT as int) * (
            COORD_LIMIT as int) * (COORD_LIMIT as int));
            assert(0 <= diag as int * scale as int) by (nonlinear_arith)
                requires
                    0 <= diag,
                    0 <= scale,
            ;
        }
        self.center_world2 = center;
        self.diameter_world_sq = (diag as i128) * (scale as i128);
    }

    /// False exactly when some plane has the whole sphere on its negative side.
    pub fn is_in_frustum(&self, frustum: &FrustumPlanes) -> (r: bool)
        requires
            self.wf(),
            frustum.wf(),
        ensures
            r == sphere_in_frustum(self.center_world2.spec_pt(), self.diameter_world_sq as int, *frustum),
    {
        let c = self.center_world2;
        let dsq = self.diameter_world_sq;
        let mut i: usize = 0;
        while i < 6
            invariant
                0 <= i <= 6,
                self.wf(),
                frustum.wf(),
                c == self.center_world2,
                dsq == self.diameter_world_sq,
                forall|j: int|
                    0 <= j < i ==> !sphere_outside_plane(c.spec_pt(), dsq as int, #[trigger] frustum.planes[j]),
            decreases 6 - i,
        {
            let plane = frustum.planes[i];
            assert(plane.wf());
            let n = plane.normal;
            let ghost lim = COORD_LIMIT as int;
            proof {
                lemma_mul_bound(n.x as int, c.x as int, lim, WORLD_LIMIT as int);
                lemma_mul_bound(n.y as int, c.y as int, lim, WORLD_LIMIT as int);
                lemma_mul_bound(n.z as int, c.z as int, lim, WORLD_LIMIT as int);
            }
            let s = (n.x as i128) * (c.x as i128) + (n.y as i128) * (c.y as i128) + (n.z as i128) * (
            c.z as i128) + 2 * (plane.d as i128);
            let nn = row_length_sq(&n);
            proof {
                assert(-6192449487634432 <= s <= 6192449487634432);
                lemma_square_bound(s as int, 6192449487634432);
                assert(0 <= dsq <= 664082786653543858176);
                assert(0 <= nn <= 12884901888);
                lemma_mul_bound(dsq as int, nn as int, 664082786653543858176, 12884901888);
            }
            if s < 0 && s * s > dsq * (nn as i128) {
                assert(sphere_outside_plane(c.spec_pt(), dsq as int, frustum.planes[i as int]));
                return false;
            }
            i += 1;
        }
        true
    }
}

/// A box and a sphere derived from the same local extents and world
/// transform, with the strategy that decides which of them are tested.
#[derive(Debug)]
pub struct BoundingInfo {
    minimum: Vector3,
    maximum: Vector3,
    bounding_box: BoundingBox,
    bounding_sphere: BoundingSphere,
    direction0: Vector3,
    direction1: Vector3,
    direction2: Vector3,
    pub culling_strategy: ECullingStrategy,
}

impl Default for BoundingInfo {
    /// The unit cube from (-1, -1, -1) to (1, 1, 1) under the identity, tested
    /// by the standard strategy.
    fn default() -> (r: BoundingInfo)
        ensures
            r.wf(),
            r.local_minimum() == (Vector3 { x: -1i32, y: -1i32, z: -1i32 }),
            r.local_maximum() == (Vector3 { x: 1, y: 1, z: 1 }),
            r.world() == Matrix::spec_identity(),
            r.strategy() == ECullingStrategy::Standard,
            r.directions() == (Vector3 { x: 0, y: 0, z: 0 }, Vector3 { x: 0, y: 0, z: 0 }, Vector3 {
                x: 0,
                y: 0,
                z: 0,
            }),
    {
        let minimum = Vector3::new(-1, -1, -1);
        let maximum = Vector3::new(1, 1, 1);
        let world = Matrix::identity();
        let bounding_box = BoundingBox::new(&minimum, &maximum, &world);
        let bounding_sphere = BoundingSphere::new(&minimum, &maximum, &world);
        BoundingInfo {
            minimum,
            maximum,
            bounding_box,
            bounding_sphere,
            direction0: Vector3::zeros(),
            direction1: Vector3::zeros(),
            direction2: Vector3::zeros(),
            culling_strategy: ECullingStrategy::Standard,
        }
    }
}

impl BoundingInfo {
    /// The local extents' lower corner.
    pub closed spec fn local_minimum(&self) -> Vector3 {
        self.minimum
    }

    /// The local extents' upper corner.
    pub closed spec fn local_maximum(&self) -> Vector3 {
        self.maximum
    }

    /// The cached world directions: the first three rows of the transform
    /// given to the last `reset`.
    pub closed spec fn directions(&self) -> (Vector3, Vector3, Vector3) {
        (self.direction0, self.direction1, self.direction2)
    }

    /// The configured culling strategy.
    pub closed spec fn strategy(&self) -> ECullingStrategy {
        self.culling_strategy
    }

    /// The world transform that the bounds were last computed for.
    pub closed spec fn world(&self) -> Matrix {
        self.bounding_box.world
    }

    /// The box and the sphere agree with the cached extents and transform.
    pub closed spec fn wf(&self) -> bool {
        &&& self.bounding_box.wf()
        &&& self.bounding_sphere.wf()
        &&& self.bounding_box.minimum == self.minimum
        &&& self.bounding_box.maximum == self.maximum
        &&& self.bounding_sphere.minimum == self.minimum
        &&& self.bounding_sphere.maximum == self.maximum
        &&& self.bounding_sphere.placed_by(self.bounding_box.world)
    }

    /// The sphere stage passes: no plane has the whole sphere behind it.
    pub open spec fn sphere_visible(&self, f: FrustumPlanes) -> bool {
        sphere_in_frustum(
            sphere_center2(self.local_minimum(), self.local_maximum(), self.world()),
            sphere_diameter_sq(self.local_minimum(), self.local_maximum(), self.world()),
            f,
        )
    }

    /// The box stage passes: no plane has all eight corners behind it.
    pub open spec fn box_visible(&self, f: FrustumPlanes) -> bool {
        corners_in_frustum(box_corners(self.local_minimum(), self.local_maximum(), self.world()), f)
    }

    /// The outcome of the two-stage test under the configured strategy.
    pub open spec fn visible(&self, f: FrustumPlanes) -> bool {
        self.sphere_visible(f) && (self.strategy() == ECullingStrategy::Standard ==> self.box_visible(f))
    }

    /// Recomputes both volumes from new local extents and a new transform, and
    /// caches the transform's first three rows as the world directions.
    pub fn reset(&mut self, min: &Vector3, max: &Vector3, world: &Matrix)
        requires
            min.wf(),
            max.wf(),
            world.wf(),
        ensures
            final(self).wf(),
            final(self).local_minimum() == *min,
            final(self).local_maximum() == *max,
            final(self).world() == *world,
            final(self).strategy() == old(self).strategy(),
            final(self).directions() == (world.row0, world.row1, world.row2),
    {
        self.minimum = *min;
        self.maximum = *max;
        self.bounding_box.reset(min, max, world);
        self.bounding_sphere.reset(min, max, world);
        self.direction0 = world.row0;
        self.direction1 = world.row1;
        self.direction2 = world.row2;
    }

    /// Moves both volumes to `world`, keeping the local extents.
    pub fn update(&mut self, world: &Matrix)
        requires
            old(self).wf(),
            world.wf(),
        ensures
            final(self).wf(),
            final(self).local_minimum() == old(self).local_minimum(),
            final(self).local_maximum() == old(self).local_maximum(),
            final(self).world() == *world,
            final(self).strategy() == old(self).strategy(),
            final(self).directions() == old(self).directions(),
    {
        self.bounding_box.reset(&self.minimum, &self.maximum, world);
        self.bounding_sphere.update(world);
    }

    /// A well-formed volume has in-limit extents and transform.
    pub proof fn lemma_wf_inputs(&self)
        requires
            self.wf(),
        ensures
            self.local_minimum().wf(),
            self.local_maximum().wf(),
            self.world().wf(),
    {
    }

    /// The cached world directions.
    pub fn world_directions(&self) -> (r: (Vector3, Vector3, Vector3))
        ensures
            r == self.directions(),
    {
        (self.direction0, self.direction1, self.direction2)
    }

    /// The bounding box, as the extents and transform place it.
    pub fn bounding_box(&self) -> (r: &BoundingBox)
        requires
            self.wf(),
        ensures
            r.wf(),
            r.minimum == self.local_minimum(),
            r.maximum == self.local_maximum(),
            r.world == self.world(),
    {
        &self.bounding_box
    }

    /// The sphere stage first; the box stage only under the standard strategy
    /// and only when the sphere stage has passed. Changes nothing.
    pub fn is_in_frustum(&self, frustum_planes: &FrustumPlanes) -> (r: bool)
        requires
            self.wf(),
            frustum_planes.wf(),
        ensures
            r == self.visible(*frustum_planes),
            !self.sphere_visible(*frustum_planes) ==> !r,
    {
        if !self.bounding_sphere.is_in_frustum(frustum_planes) {
            return false;
        }
        match self.culling_strategy {
            ECullingStrategy::Optimistic => true,
            ECullingStrategy::Standard => self.bounding_box.is_in_frustum(frustum_planes),
        }
    }
}

/// Tests each bounding volume against one frustum; `result` receives one flag
/// per volume, in the same order.
pub fn check_boundings(boundings: &Vec<BoundingInfo>, frustum_planes: &FrustumPlanes, result: &mut Vec<bool>)
    requires
        forall|i: int| 0 <= i < boundings@.len() ==> (#[trigger] boundings@[i]).wf(),
        frustum_planes.wf(),
    ensures
        final(result)@.len() == boundings@.len(),
        forall|i: int|
            0 <= i < boundings@.len() ==> final(result)@[i] == (#[trigger] boundings@[i]).visible(*frustum_planes),
{
    let len = boundings.len();
    let mut res_vec: Vec<bool> = Vec::with_capacity(len);
    let mut index: usize = 0;
    while index < len
        invariant
            len == boundings@.len(),
            0 <= index <= len,
            frustum_planes.wf(),
            forall|i: int| 0 <= i < boundings@.len() ==> (#[trigger] boundings@[i]).wf(),
            res_vec@.len() == index,
            forall|i: int| 0 <= i < index ==> res_vec@[i] == (#[trigger] boundings@[i]).visible(*frustum_planes),
        decreases len - index,
    {
        let is_in_frustum = boundings[index].is_in_frustum(frustum_planes);
        res_vec.push(is_in_frustum);
        index += 1;
    }
    *result = res_vec;
}

/// `normal . v`, without the offset.
pub open spec fn normal_dot(p: Plane, v: Vector3) -> int {
    p.normal.x * v.x + p.normal.y * v.y + p.normal.z * v.z
}

proof fn lemma_swap_factor(n: int, q: int, a: int)
    ensures
        n * (q * a) == q * (n * a),
{
    assert(n * (q * a) == q * (n * a)) by (nonlinear_arith);
}

proof fn lemma_distribute_row(n: int, q0: int, q1: int, q2: int, a: int, b: int, c: int, t: int, k: int)
    ensures
        n * (q0 * a + q1 * b + q2 * c + k * t) == q0 * (n * a) + q1 * (n * b) + q2 * (n * c) + k * (n * t),
{
    assert(n * (q0 * a + q1 * b + q2 * c + k * t) == n * (q0 * a) + n * (q1 * b) + n * (q2 * c) + n * (k
        * t)) by (nonlinear_arith);
    lemma_swap_factor(n, q0, a);
    lemma_swap_factor(n, q1, b);
    lemma_swap_factor(n, q2, c);
    lemma_swap_factor(n, k, t);
}

proof fn lemma_distribute3(q: int, x: int, y: int, z: int)
    ensures
        q * (x + y + z) == q * x + q * y + q * z,
{
    assert(q * (x + y + z) == q * x + q * y + q * z) by (nonlinear_arith);
}

/// The signed distance of a transformed point, split into the contribution of
/// each local coordinate.
proof fn lemma_dot_transform(p: Plane, m: Matrix, q: (int, int, int))
    ensures
        p.dot_coordinate(transform(m, q)) == q.0 * normal_dot(p, m.row0) + q.1 * normal_dot(p, m.row1) + q.2
            * normal_dot(p, m.row2) + normal_dot(p, m.row3) + p.d,
{
    let (n0, n1, n2) = (p.normal.x as int, p.normal.y as int, p.normal.z as int);
    lemma_distribute_row(n0, q.0, q.1, q.2, m.row0.x as int, m.row1.x as int, m.row2.x as int, m.row3.x as int, 1);
    lemma_distribute_row(n1, q.0, q.1, q.2, m.row0.y as int, m.row1.y as int, m.row2.y as int, m.row3.y as int, 1);
    lemma_distribute_row(n2, q.0, q.1, q.2, m.row0.z as int, m.row1.z as int, m.row2.z as int, m.row3.z as int, 1);
    lemma_distribute3(q.0, n0 * m.row0.x, n1 * m.row0.y, n2 * m.row0.z);
    lemma_distribute3(q.1, n0 * m.row1.x, n1 * m.row1.y, n2 * m.row1.z);
    lemma_distribute3(q.2, n0 * m.row2.x, n1 * m.row2.y, n2 * m.row2.z);
}

/// The same split for the sphere's doubled center.
proof fn lemma_dot2_center(p: Plane, min: Vector3, max: Vector3, m: Matrix)
    ensures
        plane_dot2(p, sphere_center2(min, max, m)) == (min.x + max.x) * normal_dot(p, m.row0) + (min.y
            + max.y) * normal_dot(p, m.row1) + (min.z + max.z) * normal_dot(p, m.row2) + 2 * normal_dot(
            p,
            m.row3,
        ) + 2 * p.d,
{
    let (n0, n1, n2) = (p.normal.x as int, p.normal.y as int, p.normal.z as int);
    let (s, t, u) = ((min.x + max.x) as int, (min.y + max.y) as int, (min.z + max.z) as int);
    lemma_distribute_row(n0, s, t, u, m.row0.x as int, m.row1.x as int, m.row2.x as int, m.row3.x as int, 2);
    lemma_distribute_row(n1, s, t, u, m.row0.y as int, m.row1.y as int, m.row2.y as int, m.row3.y as int, 2);
    lemma_distribute_row(n2, s, t, u, m.row0.z as int, m.row1.z as int, m.row2.z as int, m.row3.z as int, 2);
    lemma_distribute3(s, n0 * m.row0.x, n1 * m.row0.y, n2 * m.row0.z);
    lemma_distribute3(t, n0 * m.row1.x, n1 * m.row1.y, n2 * m.row1.z);
    lemma_distribute3(u, n0 * m.row2.x, n1 * m.row2.y, n2 * m.row2.z);
    assert(2 * (n0 * m.row3.x) + 2 * (n1 * m.row3.y) + 2 * (n2 * m.row3.z) == 2 * normal_dot(p, m.row3));
}

proof fn lemma_distribute2(a: int, b: int, g: int)
    ensures
        (a + b) * g == a * g + b * g,
{
    assert((a + b) * g == a * g + b * g) by (nonlinear_arith);
}

/// Summed over the eight corners, the corners' signed distances to `p` give
/// four times the doubled center's.
proof fn lemma_corner_sum(p: Plane, min: Vector3, max: Vector3, m: Matrix)
    ensures
        ({
            let cs = box_corners(min, max, m);
            p.dot_coordinate(cs[0]) + p.dot_coordinate(cs[1]) + p.dot_coordinate(cs[2]) + p.dot_coordinate(
                cs[3],
            ) + p.dot_coordinate(cs[4]) + p.dot_coordinate(cs[5]) + p.dot_coordinate(cs[6])
                + p.dot_coordinate(cs[7]) == 4 * plane_dot2(p, sphere_center2(min, max, m))
        }),
{
    let (ax, ay, az) = (min.x as int, min.y as int, min.z as int);
    let (bx, by, bz) = (max.x as int, max.y as int, max.z as int);
    lemma_dot_transform(p, m, (ax, ay, az));
    lemma_dot_transform(p, m, (bx, ay, az));
    lemma_dot_transform(p, m, (ax, by, az));
    lemma_dot_transform(p, m, (bx, by, az));
    lemma_dot_transform(p, m, (ax, ay, bz));
    lemma_dot_transform(p, m, (bx, ay, bz));
    lemma_dot_transform(p, m, (ax, by, bz));
    lemma_dot_transform(p, m, (bx, by, bz));
    lemma_dot2_center(p, min, max, m);
    lemma_distribute2(ax, bx, normal_dot(p, m.row0));
    lemma_distribute2(ay, by, normal_dot(p, m.row1));
    lemma_distribute2(az, bz, normal_dot(p, m.row2));
}

/// A bounding volume whose eight box corners all lie inside every plane of the
/// frustum is visible, under either strategy.
pub proof fn lemma_box_inside_is_visible(b: &BoundingInfo, f: FrustumPlanes)
    requires
        b.wf(),
        f.wf(),
        forall|i: int, k: int|
            0 <= i < 6 && 0 <= k < 8 ==> (#[trigger] f.planes[i]).dot_coordinate(
                #[trigger] box_corners(b.local_minimum(), b.local_maximum(), b.world())[k],
            ) >= 0,
    ensures
        b.visible(f),
{
    let (min, max, m) = (b.local_minimum(), b.local_maximum(), b.world());
    let cs = box_corners(min, max, m);
    assert forall|i: int| 0 <= i < 6 implies !sphere_outside_plane(
        sphere_center2(min, max, m),
        sphere_diameter_sq(min, max, m),
        #[trigger] f.planes[i],
    ) by {
        let p = f.planes[i];
        lemma_corner_sum(p, min, max, m);
        assert(p.dot_coordinate(cs[0]) >= 0);
        assert(p.dot_coordinate(cs[1]) >= 0);
        assert(p.dot_coordinate(cs[2]) >= 0);
        assert(p.dot_coordinate(cs[3]) >= 0);
        assert(p.dot_coordinate(cs[4]) >= 0);
        assert(p.dot_coordinate(cs[5]) >= 0);
        assert(p.dot_coordinate(cs[6]) >= 0);
        assert(p.dot_coordinate(cs[7]) >= 0);
    }
    assert forall|i: int| 0 <= i < 6 implies !corners_outside_plane(cs, #[trigger] f.planes[i]) by {
        assert(f.planes[i].dot_coordinate(cs[0]) >= 0);
    }
}

/// A bounding volume whose sphere lies entirely behind one plane of the
/// frustum is culled, under either strategy.
pub proof fn lemma_sphere_outside_is_culled(b: &BoundingInfo, f: FrustumPlanes, i: int)
    requires
        b.wf(),
        f.wf(),
        0 <= i < 6,
        sphere_outside_plane(
            sphere_center2(b.local_minimum(), b.local_maximum(), b.world()),
            sphere_diameter_sq(b.local_minimum(), b.local_maximum(), b.world()),
            f.planes[i],
        ),
    ensures
        !b.sphere_visible(f),
        !b.visible(f),
{
}

/// A box that straddles one plane (some corners in front, some behind) and lies
/// in front of the five others passes the box stage: straddling counts as
/// intersecting, so such a volume is culled only where its sphere stage fails.
pub proof fn lemma_straddling_box_is_visible(b: &BoundingInfo, f: FrustumPlanes, i: int)
    requires
        b.wf(),
        f.wf(),
        0 <= i < 6,
        exists|k: int|
            0 <= k < 8 && f.planes[i].dot_coordinate(
                #[trigger] box_corners(b.local_minimum(), b.local_maximum(), b.world())[k],
            ) >= 0,
        exists|k: int|
            0 <= k < 8 && f.planes[i].dot_coordinate(
                #[trigger] box_corners(b.local_minimum(), b.local_maximum(), b.world())[k],
            ) < 0,
        forall|j: int, k: int|
            0 <= j < 6 && j != i && 0 <= k < 8 ==> (#[trigger] f.planes[j]).dot_coordinate(
                #[trigger] box_corners(b.local_minimum(), b.local_maximum(), b.world())[k],
            ) >= 0,
    ensures
        b.box_visible(f),
        b.sphere_visible(f) ==> b.visible(f),
{
    let cs = box_corners(b.local_minimum(), b.local_maximum(), b.world());
    assert forall|j: int| 0 <= j < 6 implies !corners_outside_plane(cs, #[trigger] f.planes[j]) by {
        if j == i {
            let k = choose|k: int|
                0 <= k < 8 && f.planes[i].dot_coordinate(
                    #[trigger] box_corners(b.local_minimum(), b.local_maximum(), b.world())[k],
                ) >= 0;
            assert(f.planes[j].dot_coordinate(cs[k]) >= 0);
        } else {
            assert(f.planes[j].dot_coordinate(cs[0]) >= 0);
        }
    }
}

/// `u . v`.
pub open spec fn dot3(u: (int, int, int), v: (int, int, int)) -> int {
    u.0 * v.0 + u.1 * v.1 + u.2 * v.2
}

/// The rows of the linear part are pairwise perpendicular: `m` rotates,
/// scales and translates, without shear.
pub open spec fn rows_orthogonal(m: Matrix) -> bool {
    &&& dot3(m.row0.spec_pt(), m.row1.spec_pt()) == 0
    &&& dot3(m.row0.spec_pt(), m.row2.spec_pt()) == 0
    &&& dot3(m.row1.spec_pt(), m.row2.spec_pt()) == 0
}

proof fn lemma_square_nonneg(x: int)
    ensures
        x * x >= 0,
{
    assert(x * x >= 0) by (nonlinear_arith);
}

proof fn lemma_square_diff(p: int, q: int)
    ensures
        (p - q) * (p - q) == p * p + q * q - 2 * (p * q),
{
    assert((p - q) * (p - q) == p * p + q * q - 2 * (p * q)) by (nonlinear_arith);
}

proof fn lemma_cauchy_schwarz(a: int, b: int, c: int, x: int, y: int, z: int)
    ensures
        (a * x + b * y + c * z) * (a * x + b * y + c * z) <= (a * a + b * b + c * c) * (x * x + y * y + z
            * z),
{
    lemma_distribute3(a * a + b * b + c * c, x * x, y * y, z * z);
    lemma_distribute2(a * a + b * b, c * c, x * x);
    lemma_distribute2(a * a, b * b, x * x);
    lemma_distribute2(a * a + b * b, c * c, y * y);
    lemma_distribute2(a * a, b * b, y * y);
    lemma_distribute2(a * a + b * b, c * c, z * z);
    lemma_distribute2(a * a, b * b, z * z);
    lemma_square3(a * x, b * y, c * z);
    lemma_square_diff(a * y, b * x);
    lemma_square_diff(a * z, c * x);
    lemma_square_diff(b * z, c * y);
    lemma_regroup(a, x, a, x);
    lemma_regroup(b, y, b, y);
    lemma_regroup(c, z, c, z);
    lemma_regroup(a, y, a, y);
    lemma_regroup(b, x, b, x);
    lemma_regroup(a, z, a, z);
    lemma_regroup(c, x, c, x);
    lemma_regroup(b, z, b, z);
    lemma_regroup(c, y, c, y);
    lemma_regroup(a, x, b, y);
    lemma_regroup(a, y, b, x);
    lemma_regroup(a, x, c, z);
    lemma_regroup(a, z, c, x);
    lemma_regroup(b, y, c, z);
    lemma_regroup(b, z, c, y);
    assert(x * y == y * x && x * z == z * x && y * z == z * y);
    lemma_square_nonneg(a * y - b * x);
    lemma_square_nonneg(a * z - c * x);
    lemma_square_nonneg(b * z - c * y);
}

proof fn lemma_square3(p: int, q: int, r: int)
    ensures
        (p + q + r) * (p + q + r) == p * p + q * q + r * r + 2 * (p * q) + 2 * (p * r) + 2 * (q * r),
{
    assert((p + q + r) * (p + q + r) == p * p + q * q + r * r + 2 * (p * q) + 2 * (p * r) + 2 * (q * r)) by (
    nonlinear_arith);
}

proof fn lemma_regroup(e: int, a: int, f: int, b: int)
    ensures
        (e * a) * (f * b) == (e * f) * (a * b),
{
    assert((e * a) * (f * b) == (e * f) * (a * b)) by (nonlinear_arith);
}

proof fn lemma_mul_zero(k: int, x: int)
    requires
        x == 0,
    ensures
        k * x == 0,
{
}

/// Without shear, the image of `e` has the length that each axis scale gives
/// its coordinate.
proof fn lemma_orthogonal_length(m: Matrix, e: (int, int, int))
    requires
        rows_orthogonal(m),
    ensures
        length_sq(crate::geometry::linear_map(m, e)) == (e.0 * e.0) * length_sq(m.row0.spec_pt()) + (e.1
            * e.1) * length_sq(m.row1.spec_pt()) + (e.2 * e.2) * length_sq(m.row2.spec_pt()),
{
    let (a, b, c) = (m.row0, m.row1, m.row2);
    let (e0, e1, e2) = e;
    lemma_square3(e0 * a.x, e1 * b.x, e2 * c.x);
    lemma_square3(e0 * a.y, e1 * b.y, e2 * c.y);
    lemma_square3(e0 * a.z, e1 * b.z, e2 * c.z);
    lemma_regroup(e0, a.x as int, e0, a.x as int);
    lemma_regroup(e0, a.y as int, e0, a.y as int);
    lemma_regroup(e0, a.z as int, e0, a.z as int);
    lemma_regroup(e1, b.x as int, e1, b.x as int);
    lemma_regroup(e1, b.y as int, e1, b.y as int);
    lemma_regroup(e1, b.z as int, e1, b.z as int);
    lemma_regroup(e2, c.x as int, e2, c.x as int);
    lemma_regroup(e2, c.y as int, e2, c.y as int);
    lemma_regroup(e2, c.z as int, e2, c.z as int);
    lemma_regroup(e0, a.x as int, e1, b.x as int);
    lemma_regroup(e0, a.y as int, e1, b.y as int);
    lemma_regroup(e0, a.z as int, e1, b.z as int);
    lemma_regroup(e0, a.x as int, e2, c.x as int);
    lemma_regroup(e0, a.y as int, e2, c.y as int);
    lemma_regroup(e0, a.z as int, e2, c.z as int);
    lemma_regroup(e1, b.x as int, e2, c.x as int);
    lemma_regroup(e1, b.y as int, e2, c.y as int);
    lemma_regroup(e1, b.z as int, e2, c.z as int);
    lemma_distribute3(e0 * e0, a.x * a.x, a.y * a.y, a.z * a.z);
    lemma_distribute3(e1 * e1, b.x * b.x, b.y * b.y, b.z * b.z);
    lemma_distribute3(e2 * e2, c.x * c.x, c.y * c.y, c.z * c.z);
    lemma_distribute3(e0 * e1, a.x * b.x, a.y * b.y, a.z * b.z);
    lemma_distribute3(e0 * e2, a.x * c.x, a.y * c.y, a.z * c.z);
    lemma_distribute3(e1 * e2, b.x * c.x, b.y * c.y, b.z * c.z);
    lemma_mul_zero(e0 * e1, dot3(a.spec_pt(), b.spec_pt()));
    lemma_mul_zero(e0 * e2, dot3(a.spec_pt(), c.spec_pt()));
    lemma_mul_zero(e1 * e2, dot3(b.spec_pt(), c.spec_pt()));
}

proof fn lemma_scale_le(k: int, x: int, y: int)
    requires
        k >= 0,
        x <= y,
    ensures
        k * x <= k * y,
{
    assert(k * x <= k * y) by (nonlinear_arith)
        requires
            k >= 0,
            x <= y,
    ;
}

/// The image of `e` is at most the largest axis scale times `e`'s length.
proof fn lemma_orthogonal_length_bound(m: Matrix, e: (int, int, int))
    requires
        rows_orthogonal(m),
    ensures
        length_sq(crate::geometry::linear_map(m, e)) <= length_sq(e) * max_scale_sq(m),
{
    lemma_orthogonal_length(m, e);
    let s = max_scale_sq(m);
    lemma_square_nonneg(e.0);
    lemma_square_nonneg(e.1);
    lemma_square_nonneg(e.2);
    lemma_scale_le(e.0 * e.0, length_sq(m.row0.spec_pt()), s);
    lemma_scale_le(e.1 * e.1, length_sq(m.row1.spec_pt()), s);
    lemma_scale_le(e.2 * e.2, length_sq(m.row2.spec_pt()), s);
    lemma_distribute2(e.0 * e.0 + e.1 * e.1, e.2 * e.2, s);
    lemma_distribute2(e.0 * e.0, e.1 * e.1, s);
}

/// The normal against the image of `e`, split by coordinate.
proof fn lemma_dot_linear(p: Plane, m: Matrix, e: (int, int, int))
    ensures
        dot3(p.normal.spec_pt(), crate::geometry::linear_map(m, e)) == e.0 * normal_dot(p, m.row0) + e.1
            * normal_dot(p, m.row1) + e.2 * normal_dot(p, m.row2),
{
    let (n0, n1, n2) = (p.normal.x as int, p.normal.y as int, p.normal.z as int);
    lemma_distribute_row(n0, e.0, e.1, e.2, m.row0.x as int, m.row1.x as int, m.row2.x as int, 0, 0);
    lemma_distribute_row(n1, e.0, e.1, e.2, m.row0.y as int, m.row1.y as int, m.row2.y as int, 0, 0);
    lemma_distribute_row(n2, e.0, e.1, e.2, m.row0.z as int, m.row1.z as int, m.row2.z as int, 0, 0);
    lemma_distribute3(e.0, n0 * m.row0.x, n1 * m.row0.y, n2 * m.row0.z);
    lemma_distribute3(e.1, n0 * m.row1.x, n1 * m.row1.y, n2 * m.row1.z);
    lemma_distribute3(e.2, n0 * m.row2.x, n1 * m.row2.y, n2 * m.row2.z);
}

/// Twice the local offset from the box's center to its corner `q`.
pub open spec fn corner_offset2(min: Vector3, max: Vector3, q: (int, int, int)) -> (int, int, int) {
    (2 * q.0 - min.x - max.x, 2 * q.1 - min.y - max.y, 2 * q.2 - min.z - max.z)
}

/// `q` is one of the eight local corners of `min`..`max`.
pub open spec fn is_local_corner(min: Vector3, max: Vector3, q: (int, int, int)) -> bool {
    &&& (q.0 == min.x || q.0 == max.x)
    &&& (q.1 == min.y || q.1 == max.y)
    &&& (q.2 == min.z || q.2 == max.z)
}

/// Without shear, a corner in front of `p` keeps the sphere from lying
/// entirely behind it.
proof fn lemma_corner_holds_sphere(p: Plane, min: Vector3, max: Vector3, m: Matrix, q: (int, int, int))
    requires
        rows_orthogonal(m),
        is_local_corner(min, max, q),
        p.dot_coordinate(transform(m, q)) >= 0,
    ensures
        !sphere_outside_plane(sphere_center2(min, max, m), sphere_diameter_sq(min, max, m), p),
{
    let c2 = sphere_center2(min, max, m);
    let s = plane_dot2(p, c2);
    let e = corner_offset2(min, max, q);
    let l = crate::geometry::linear_map(m, e);
    let t = dot3(p.normal.spec_pt(), l);
    let g0 = normal_dot(p, m.row0);
    let g1 = normal_dot(p, m.row1);
    let g2 = normal_dot(p, m.row2);
    lemma_dot_transform(p, m, q);
    lemma_dot2_center(p, min, max, m);
    lemma_dot_linear(p, m, e);
    lemma_distribute2(min.x + max.x, e.0, g0);
    lemma_distribute2(min.y + max.y, e.1, g1);
    lemma_distribute2(min.z + max.z, e.2, g2);
    assert((2 * q.0) * g0 == 2 * (q.0 * g0)) by (nonlinear_arith);
    assert((2 * q.1) * g1 == 2 * (q.1 * g1)) by (nonlinear_arith);
    assert((2 * q.2) * g2 == 2 * (q.2 * g2)) by (nonlinear_arith);
    assert(s + t == 2 * p.dot_coordinate(transform(m, q)));
    if s < 0 {
        let nn = length_sq(p.normal.spec_pt());
        let diag = length_sq(((max.x - min.x) as int, (max.y - min.y) as int, (max.z - min.z) as int));
        assert(s * s <= t * t) by (nonlinear_arith)
            requires
                s < 0,
                s + t >= 0,
        ;
        lemma_cauchy_schwarz(p.normal.x as int, p.normal.y as int, p.normal.z as int, l.0, l.1, l.2);
        lemma_orthogonal_length_bound(m, e);
        assert(length_sq(e) == diag) by (nonlinear_arith)
            requires
                e.0 == max.x - min.x || e.0 == min.x - max.x,
                e.1 == max.y - min.y || e.1 == min.y - max.y,
                e.2 == max.z - min.z || e.2 == min.z - max.z,
                length_sq(e) == e.0 * e.0 + e.1 * e.1 + e.2 * e.2,
                diag == (max.x - min.x) * (max.x - min.x) + (max.y - min.y) * (max.y - min.y) + (max.z
                    - min.z) * (max.z - min.z),
        ;
        lemma_square_nonneg(p.normal.x as int);
        lemma_square_nonneg(p.normal.y as int);
        lemma_square_nonneg(p.normal.z as int);
        lemma_scale_le(nn, length_sq(l), diag * max_scale_sq(m));
        assert(nn * (diag * max_scale_sq(m)) == (diag * max_scale_sq(m)) * nn) by (nonlinear_arith);
    }
}

/// Without shear in the world transform, a box that straddles one plane and
/// lies in front of the five others is visible under either strategy: the
/// straddled plane counts as intersected, never as culling.
pub proof fn lemma_straddling_unsheared_is_visible(b: &BoundingInfo, f: FrustumPlanes, i: int)
    requires
        b.wf(),
        f.wf(),
        rows_orthogonal(b.world()),
        0 <= i < 6,
        exists|k: int|
            0 <= k < 8 && f.planes[i].dot_coordinate(
                #[trigger] box_corners(b.local_minimum(), b.local_maximum(), b.world())[k],
            ) >= 0,
        exists|k: int|
            0 <= k < 8 && f.planes[i].dot_coordinate(
                #[trigger] box_corners(b.local_minimum(), b.local_maximum(), b.world())[k],
            ) < 0,
        forall|j: int, k: int|
            0 <= j < 6 && j != i && 0 <= k < 8 ==> (#[trigger] f.planes[j]).dot_coordinate(
                #[trigger] box_corners(b.local_minimum(), b.local_maximum(), b.world())[k],
            ) >= 0,
    ensures
        b.visible(f),
{
    let (min, max, m) = (b.local_minimum(), b.local_maximum(), b.world());
    let cs = box_corners(min, max, m);
    lemma_straddling_box_is_visible(b, f, i);
    let (ax, ay, az) = (min.x as int, min.y as int, min.z as int);
    let (bx, by, bz) = (max.x as int, max.y as int, max.z as int);
    let qs = seq![
        (ax, ay, az),
        (bx, ay, az),
        (ax, by, az),
        (bx, by, az),
        (ax, ay, bz),
        (bx, ay, bz),
        (ax, by, bz),
        (bx, by, bz),
    ];
    assert forall|j: int| 0 <= j < 6 implies !sphere_outside_plane(
        sphere_center2(min, max, m),
        sphere_diameter_sq(min, max, m),
        #[trigger] f.planes[j],
    ) by {
        let k = if j == i {
            choose|k: int| 0 <= k < 8 && f.planes[i].dot_coordinate(#[trigger] box_corners(min, max, m)[k]) >= 0
        } else {
            0
        };
        assert(f.planes[j].dot_coordinate(cs[k]) >= 0);
        assert(cs[k] == transform(m, qs[k]));
        assert(is_local_corner(min, max, qs[k]));
        lemma_corner_holds_sphere(f.planes[j], min, max, m, qs[k]);
    }
}

} // verus!
