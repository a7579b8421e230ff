//! Exact integer linear algebra for the culling tests.
//!
//! Coordinates are fixed-point integers chosen by the caller. Every input
//! component stays within `COORD_LIMIT`, which keeps every product that the
//! culling tests form exact in `i64` or `i128`.
use vstd::prelude::*;

verus! {

/// Largest magnitude of a coordinate, a matrix entry or a plane coefficient.
pub const COORD_LIMIT: i32 = 65536;

/// A vector or point given as input (local extents, matrix rows, plane normals).
#[derive(Clone, Copy, Debug, PartialEq, Eq, Structural)]
pub struct Vector3 {
    pub x: i32,
    pub y: i32,
    pub z: i32,
}

/// A point in world space, as produced by a transform.
#[derive(Clone, Copy, Debug, PartialEq, Eq, Structural)]
pub struct Point3 {
    pub x: i64,
    pub y: i64,
    pub z: i64,
}

/// An affine 4x4 transform whose last column is (0, 0, 0, 1), stored by rows.
/// The point `p` maps to `p.x * row0 + p.y * row1 + p.z * row2 + row3`.
#[derive(Clone, Copy, Debug, PartialEq, Eq, Structural)]
pub struct Matrix {
    pub row0: Vector3,
    pub row1: Vector3,
    pub row2: Vector3,
    pub row3: Vector3,
}

/// The half-space `normal . p + d >= 0`.
#[derive(Clone, Copy, Debug, PartialEq, Eq, Structural)]
pub struct Plane {
    pub normal: Vector3,
    pub d: i32,
}

/// The six planes of a view frustum: near, far, left, right, top, bottom.
#[derive(Clone, Copy, Debug)]
pub struct FrustumPlanes {
    pub planes: [Plane; 6],
}

pub open spec fn in_limit(v: i32) -> bool {
    -COORD_LIMIT <= v <= COORD_LIMIT
}

impl Vector3 {
    pub open spec fn wf(self) -> bool {
        in_limit(self.x) && in_limit(self.y) && in_limit(self.z)
    }

    pub open spec fn spec_pt(self) -> (int, int, int) {
        (self.x as int, self.y as int, self.z as int)
    }

    pub fn new(x: i32, y: i32, z: i32) -> (r: Vector3)
        ensures
            r == (Vector3 { x, y, z }),
    {
        Vector3 { x, y, z }
    }

    pub fn zeros() -> (r: Vector3)
        ensures
            r == (Vector3 { x: 0, y: 0, z: 0 }),
    {
        Vector3 { x: 0, y: 0, z: 0 }
    }
}

impl Point3 {
    pub open spec fn spec_pt(self) -> (int, int, int) {
        (self.x as int, self.y as int, self.z as int)
    }
}

/// Squared length of a vector.
pub open spec fn length_sq(v: (int, int, int)) -> int {
    v.0 * v.0 + v.1 * v.1 + v.2 * v.2
}

/// The linear part of `m` applied to `p`.
pub open spec fn linear_map(m: Matrix, p: (int, int, int)) -> (int, int, int) {
    (
        p.0 * m.row0.x + p.1 * m.row1.x + p.2 * m.row2.x,
        p.0 * m.row0.y + p.1 * m.row1.y + p.2 * m.row2.y,
        p.0 * m.row0.z + p.1 * m.row1.z + p.2 * m.row2.z,
    )
}

/// The point `p` carried into world space by `m`.
pub open spec fn transform(m: Matrix, p: (int, int, int)) -> (int, int, int) {
    let l = linear_map(m, p);
    (l.0 + m.row3.x, l.1 + m.row3.y, l.2 + m.row3.z)
}

/// Twice the world image of the midpoint of `a` and `b`: integral where the
/// midpoint itself may not be.
pub open spec fn transform_midpoint2(m: Matrix, a: (int, int, int), b: (int, int, int)) -> (int, int, int) {
    let l = linear_map(m, (a.0 + b.0, a.1 + b.1, a.2 + b.2));
    (l.0 + 2 * m.row3.x, l.1 + 2 * m.row3.y, l.2 + 2 * m.row3.z)
}

/// Square of the largest axis scale of `m`: the largest squared row length of
/// its linear part.
pub open spec fn max_scale_sq(m: Matrix) -> int {
    let a = length_sq(m.row0.spec_pt());
    let b = length_sq(m.row1.spec_pt());
    let c = length_sq(m.row2.spec_pt());
    if a >= b && a >= c {
        a
    } else if b >= c {
        b
    } else {
        c
    }
}

impl Matrix {
    pub open spec fn wf(self) -> bool {
        self.row0.wf() && self.row1.wf() && self.row2.wf() && self.row3.wf()
    }

    pub open spec fn spec_identity() -> Matrix {
        Matrix {
            row0: Vector3 { x: 1, y: 0, z: 0 },
            row1: Vector3 { x: 0, y: 1, z: 0 },
            row2: Vector3 { x: 0, y: 0, z: 1 },
            row3: Vector3 { x: 0, y: 0, z: 0 },
        }
    }

    pub fn identity() -> (r: Matrix)
        ensures
            r == Matrix::spec_identity(),
    {
        Matrix {
            row0: Vector3 { x: 1, y: 0, z: 0 },
            row1: Vector3 { x: 0, y: 1, z: 0 },
            row2: Vector3 { x: 0, y: 0, z: 1 },
            row3: Vector3 { x: 0, y: 0, z: 0 },
        }
    }

    /// A pure translation by `t`.
    pub fn translation(t: Vector3) -> (r: Matrix)
        ensures
            r == (Matrix {
                row0: Vector3 { x: 1, y: 0, z: 0 },
                row1: Vector3 { x: 0, y: 1, z: 0 },
                row2: Vector3 { x: 0, y: 0, z: 1 },
                row3: t,
            }),
    {
        Matrix {
            row0: Vector3 { x: 1, y: 0, z: 0 },
            row1: Vector3 { x: 0, y: 1, z: 0 },
            row2: Vector3 { x: 0, y: 0, z: 1 },
            row3: t,
        }
    }
}

impl Plane {
    pub open spec fn wf(self) -> bool {
        self.normal.wf() && in_limit(self.d)
    }

    /// `normal . p + d`: the signed distance of `p` scaled by the normal's length.
    pub open spec fn dot_coordinate(self, p: (int, int, int)) -> int {
        self.normal.x * p.0 + self.normal.y * p.1 + self.normal.z * p.2 + self.d
    }

    pub fn new(normal: Vector3, d: i32) -> (r: Plane)
        ensures
            r == (Plane { normal, d }),
    {
        Plane { normal, d }
    }
}

impl FrustumPlanes {
    pub open spec fn wf(self) -> bool {
        forall|i: int| 0 <= i < 6 ==> (#[trigger] self.planes[i]).wf()
    }

    pub fn new(near: Plane, far: Plane, left: Plane, right: Plane, top: Plane, bottom: Plane) -> (r: FrustumPlanes)
        ensures
            r.planes@ == seq![near, far, left, right, top, bottom],
    {
        let r = FrustumPlanes { planes: [near, far, left, right, top, bottom] };
        assert(r.planes@ =~= seq![near, far, left, right, top, bottom]);
        r
    }
}

/// Bound on a product from bounds on its factors.
pub proof fn lemma_mul_bound(a: int, b: int, ba: int, bb: int)
    requires
        -ba <= a <= ba,
        -bb <= b <= bb,
    ensures
        -(ba * bb) <= a * b <= ba * bb,
{
    assert(-(ba * bb) <= a * b <= ba * bb) by (nonlinear_arith)
        requires
            -ba <= a <= ba,
            -bb <= b <= bb,
    ;
}

/// Bound on a square from a bound on its base.
pub proof fn lemma_square_bound(a: int, ba: int)
    requires
        -ba <= a <= ba,
    ensures
        0 <= a * a <= ba * ba,
{
    assert(0 <= a * a <= ba * ba) by (nonlinear_arith)
        requires
            -ba <= a <= ba,
    ;
}

/// Image of `p` (each coordinate within `bound`) under the linear part of `m`,
/// plus `k` times the translation row.
pub fn map_point(m: &Matrix, px: i64, py: i64, pz: i64, bound: i64, k: i64) -> (r: Point3)
    requires
        m.wf(),
        0 <= bound <= 2 * COORD_LIMIT,
        -bound <= px <= bound,
        -bound <= py <= bound,
        -bound <= pz <= bound,
        1 <= k <= 2,
    ensures
        ({
            let l = linear_map(*m, (px as int, py as int, pz as int));
            r.spec_pt() == (l.0 + k * m.row3.x, l.1 + k * m.row3.y, l.2 + k * m.row3.z)
        }),
        -7 * COORD_LIMIT * COORD_LIMIT <= r.x <= 7 * COORD_LIMIT * COORD_LIMIT,
        -7 * COORD_LIMIT * COORD_LIMIT <= r.y <= 7 * COORD_LIMIT * COORD_LIMIT,
        -7 * COORD_LIMIT * COORD_LIMIT <= r.z <= 7 * COORD_LIMIT * COORD_LIMIT,
{
    let ghost lim = COORD_LIMIT as int;
    let ghost pb = 2 * lim * lim;
    proof {
        lemma_mul_bound(px as int, m.row0.x as int, bound as int, lim);
        lemma_mul_bound(py as int, m.row1.x as int, bound as int, lim);
        lemma_mul_bound(pz as int, m.row2.x as int, bound as int, lim);
        lemma_mul_bound(px as int, m.row0.y as int, bound as int, lim);
        lemma_mul_bound(py as int, m.row1.y as int, bound as int, lim);
        lemma_mul_bound(pz as int, m.row2.y as int, bound as int, lim);
        lemma_mul_bound(px as int, m.row0.z as int, bound as int, lim);
        lemma_mul_bound(py as int, m.row1.z as int, bound as int, lim);
        lemma_mul_bound(pz as int, m.row2.z as int, bound as int, lim);
        lemma_mul_bound(k as int, m.row3.x as int, 2, lim);
        lemma_mul_bound(k as int, m.row3.y as int, 2, lim);
        lemma_mul_bound(k as int, m.row3.z as int, 2, lim);
        assert(bound * lim <= pb) by (nonlinear_arith)
            requires
                0 <= bound <= 2 * lim,
                lim == COORD_LIMIT,
                pb == 2 * lim * lim,
        ;
    }
    let x = px * (m.row0.x as i64) + py * (m.row1.x as i64) + pz * (m.row2.x as i64) + k * (m.row3.x as i64);
    let y = px * (m.row0.y as i64) + py * (m.row1.y as i64) + pz * (m.row2.y as i64) + k * (m.row3.y as i64);
    let z = px * (m.row0.z as i64) + py * (m.row1.z as i64) + pz * (m.row2.z as i64) + k * (m.row3.z as i64);
    Point3 { x, y, z }
}

/// Squared length of a row, exactly.
pub fn row_length_sq(v: &Vector3) -> (r: i64)
    requires
        v.wf(),
    ensures
        r == length_sq(v.spec_pt()),
        0 <= r <= 3 * COORD_LIMIT * COORD_LIMIT,
{
    proof {
        lemma_square_bound(v.x as int, COORD_LIMIT as int);
        lemma_square_bound(v.y as int, COORD_LIMIT as int);
        lemma_square_bound(v.z as int, COORD_LIMIT as int);
    }
    let x = v.x as i64;
    let y = v.y as i64;
    let z = v.z as i64;
    x * x + y * y + z * z
}

} // verus!
