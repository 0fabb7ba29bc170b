//! Exact lattice geometry for the sponge.
//!
//! Every vertex the generator ever emits lies on a regular grid: the cube of
//! width `w` with minimum corner `o` is split into `3^level` steps per axis,
//! and a lattice value `k` at depth `level` stands for the real coordinate
//! `o + w * k / 3^level`.  Working on these integer coordinates keeps the
//! whole subdivision and face-emission logic exact; turning a lattice value
//! into a floating-point number is left to the caller.

use vstd::prelude::*;
use crate::error::StlError;

verus! {

/// Largest lattice coordinate the library accepts.  It is `2^62`, far above
/// `3^39` (the finest subdivision the sponge itself can reach), and small
/// enough that every cross-product below fits in an `i128`.
pub const MAX_COORD: u64 = 0x4000_0000_0000_0000;

/// A lattice point: integer coordinates at some subdivision depth.
#[derive(Clone, Copy, PartialEq, Eq, Structural, Debug)]
pub struct GridVector {
    pub x: u64,
    pub y: u64,
    pub z: u64,
}

/// The mathematical model of a lattice point: a vector of unbounded integers.
pub ghost struct IntVec {
    pub x: int,
    pub y: int,
    pub z: int,
}

impl View for GridVector {
    type V = IntVec;

    open spec fn view(&self) -> IntVec {
        IntVec { x: self.x as int, y: self.y as int, z: self.z as int }
    }
}

impl GridVector {
    pub fn new(x: u64, y: u64, z: u64) -> (r: GridVector)
        ensures
            r@ == (IntVec { x: x as int, y: y as int, z: z as int }),
    {
        GridVector { x, y, z }
    }

    pub open spec fn in_range(self) -> bool {
        self.x <= MAX_COORD && self.y <= MAX_COORD && self.z <= MAX_COORD
    }
}

pub open spec fn vec_zero() -> IntVec {
    IntVec { x: 0, y: 0, z: 0 }
}

pub open spec fn vec_sub(a: IntVec, b: IntVec) -> IntVec {
    IntVec { x: a.x - b.x, y: a.y - b.y, z: a.z - b.z }
}

pub open spec fn vec_cross(a: IntVec, b: IntVec) -> IntVec {
    IntVec {
        x: a.y * b.z - a.z * b.y,
        y: a.z * b.x - a.x * b.z,
        z: a.x * b.y - a.y * b.x,
    }
}

/// The (unnormalised) normal a triangle derives from its vertices: the cross
/// product of the side from `a` to `b` and the side from `b` to `c`.  The
/// pairing is exactly this one; it fixes the sign of the normal.
pub open spec fn triangle_cross(a: IntVec, b: IntVec, c: IntVec) -> IntVec {
    vec_cross(vec_sub(b, a), vec_sub(c, b))
}

/// True for the six unit vectors along the axes.
pub open spec fn unit_axis(v: IntVec) -> bool {
    ||| v == (IntVec { x: 1, y: 0, z: 0 })
    ||| v == (IntVec { x: -1, y: 0, z: 0 })
    ||| v == (IntVec { x: 0, y: 1, z: 0 })
    ||| v == (IntVec { x: 0, y: -1, z: 0 })
    ||| v == (IntVec { x: 0, y: 0, z: 1 })
    ||| v == (IntVec { x: 0, y: 0, z: -1 })
}

/// The exact normal of a lattice triangle, stored as integers.
#[derive(Clone, Copy, PartialEq, Eq, Structural, Debug)]
pub struct NormalVector {
    pub x: i128,
    pub y: i128,
    pub z: i128,
}

impl View for NormalVector {
    type V = IntVec;

    open spec fn view(&self) -> IntVec {
        IntVec { x: self.x as int, y: self.y as int, z: self.z as int }
    }
}

/// A triangle on the lattice: three ordered vertices at a common subdivision
/// depth, plus the normal derived from them at construction.
#[derive(Clone, Copy, PartialEq, Eq, Structural, Debug)]
pub struct GridTriangle {
    pub a: GridVector,
    pub b: GridVector,
    pub c: GridVector,
    pub normal: NormalVector,
    pub level: u64,
}

pub ghost struct GridTriangleModel {
    pub a: IntVec,
    pub b: IntVec,
    pub c: IntVec,
    pub normal: IntVec,
    pub level: nat,
}

impl View for GridTriangle {
    type V = GridTriangleModel;

    open spec fn view(&self) -> GridTriangleModel {
        GridTriangleModel {
            a: self.a@,
            b: self.b@,
            c: self.c@,
            normal: self.normal@,
            level: self.level as nat,
        }
    }
}

/// Invariant of every triangle the library hands out: the stored normal is
/// exactly the cross product derived from the vertices, and it is not zero
/// (the triangle is not degenerate).
pub open spec fn triangle_wf(t: GridTriangleModel) -> bool {
    t.normal == triangle_cross(t.a, t.b, t.c) && t.normal != vec_zero()
}

impl GridTriangle {
    /// Construct a triangle from three ordered vertices, deriving its normal.
    /// Vertices whose derived normal is zero (collinear or repeated points)
    /// are rejected: that is the degenerate-geometry error.
    pub fn new(a: GridVector, b: GridVector, c: GridVector, level: u64) -> (r: Result<
        GridTriangle,
        StlError,
    >)
        requires
            a.in_range(),
            b.in_range(),
            c.in_range(),
        ensures
            match r {
                Ok(t) => {
                    &&& t@.a == a@
                    &&& t@.b == b@
                    &&& t@.c == c@
                    &&& t@.level == level as nat
                    &&& triangle_wf(t@)
                },
                Err(e) => {
                    &&& e == StlError::DegenerateGeometry
                    &&& triangle_cross(a@, b@, c@) == vec_zero()
                },
            },
            r is Ok <==> triangle_cross(a@, b@, c@) != vec_zero(),
    {
        let ux: i128 = b.x as i128 - a.x as i128;
        let uy: i128 = b.y as i128 - a.y as i128;
        let uz: i128 = b.z as i128 - a.z as i128;
        let vx: i128 = c.x as i128 - b.x as i128;
        let vy: i128 = c.y as i128 - b.y as i128;
        let vz: i128 = c.z as i128 - b.z as i128;
        proof {
            lemma_cross_products_fit(ux, uy, uz, vx, vy, vz);
        }
        let nx: i128 = uy * vz - uz * vy;
        let ny: i128 = uz * vx - ux * vz;
        let nz: i128 = ux * vy - uy * vx;
        if nx == 0 && ny == 0 && nz == 0 {
            Err(StlError::DegenerateGeometry)
        } else {
            Ok(GridTriangle { a, b, c, normal: NormalVector { x: nx, y: ny, z: nz }, level })
        }
    }
}

/// Which faces of a cube to emit.  A face is named by its outward axis
/// direction: `x_pos` is the face whose outward normal points along +X.
#[derive(Clone, Copy, PartialEq, Eq, Structural, Debug)]
pub struct FaceMask {
    pub x_pos: bool,
    pub x_neg: bool,
    pub y_pos: bool,
    pub y_neg: bool,
    pub z_pos: bool,
    pub z_neg: bool,
}

/// All six faces: the mask of a cube standing alone.
pub open spec fn full_mask() -> FaceMask {
    FaceMask { x_pos: true, x_neg: true, y_pos: true, y_neg: true, z_pos: true, z_neg: true }
}

/// How many faces a mask selects.
pub open spec fn mask_faces(m: FaceMask) -> int {
    (if m.x_pos { 1int } else { 0 }) + (if m.x_neg { 1int } else { 0 }) + (if m.y_pos { 1int } else { 0 })
        + (if m.y_neg { 1int } else { 0 }) + (if m.z_pos { 1int } else { 0 }) + (if m.z_neg { 1int } else { 0 })
}

/// Corner `k` of the unit cube whose minimum corner is `c`: the corners are
/// numbered by a fixed bit pattern, bit 0 giving the X offset, bit 1 the Z
/// offset and bit 2 the Y offset.
pub open spec fn cube_corner(c: IntVec, k: int) -> IntVec {
    IntVec { x: c.x + k % 2, y: c.y + (k / 4) % 2, z: c.z + (k / 2) % 2 }
}

/// The triangle over corners `i`, `j`, `k` of the cube at `c`, with the given
/// (already derived) normal.
pub open spec fn cube_tri(c: IntVec, level: nat, i: int, j: int, k: int, n: IntVec) -> GridTriangleModel {
    GridTriangleModel {
        a: cube_corner(c, i),
        b: cube_corner(c, j),
        c: cube_corner(c, k),
        normal: n,
        level,
    }
}

/// The fixed two-triangle split of each face, wound so that the derived
/// normal points outward.
pub open spec fn face_x_pos(c: IntVec, level: nat) -> Seq<GridTriangleModel> {
    seq![
        cube_tri(c, level, 5, 7, 1, IntVec { x: 1, y: 0, z: 0 }),
        cube_tri(c, level, 7, 3, 1, IntVec { x: 1, y: 0, z: 0 }),
    ]
}

pub open spec fn face_x_neg(c: IntVec, level: nat) -> Seq<GridTriangleModel> {
    seq![
        cube_tri(c, level, 0, 2, 4, IntVec { x: -1, y: 0, z: 0 }),
        cube_tri(c, level, 2, 6, 4, IntVec { x: -1, y: 0, z: 0 }),
    ]
}

pub open spec fn face_y_pos(c: IntVec, level: nat) -> Seq<GridTriangleModel> {
    seq![
        cube_tri(c, level, 4, 6, 5, IntVec { x: 0, y: 1, z: 0 }),
        cube_tri(c, level, 6, 7, 5, IntVec { x: 0, y: 1, z: 0 }),
    ]
}

pub open spec fn face_y_neg(c: IntVec, level: nat) -> Seq<GridTriangleModel> {
    seq![
        cube_tri(c, level, 0, 1, 2, IntVec { x: 0, y: -1, z: 0 }),
        cube_tri(c, level, 1, 3, 2, IntVec { x: 0, y: -1, z: 0 }),
    ]
}

pub open spec fn face_z_pos(c: IntVec, level: nat) -> Seq<GridTriangleModel> {
    seq![
        cube_tri(c, level, 2, 3, 7, IntVec { x: 0, y: 0, z: 1 }),
        cube_tri(c, level, 2, 7, 6, IntVec { x: 0, y: 0, z: 1 }),
    ]
}

pub open spec fn face_z_neg(c: IntVec, level: nat) -> Seq<GridTriangleModel> {
    seq![
        cube_tri(c, level, 0, 4, 5, IntVec { x: 0, y: 0, z: -1 }),
        cube_tri(c, level, 0, 5, 1, IntVec { x: 0, y: 0, z: -1 }),
    ]
}

/// All triangles a cube emits under a mask, in the fixed order
/// +X, -X, +Y, -Y, +Z, -Z.
pub open spec fn cube_tris(c: IntVec, level: nat, m: FaceMask) -> Seq<GridTriangleModel> {
    (if m.x_pos { face_x_pos(c, level) } else { Seq::empty() })
        + (if m.x_neg { face_x_neg(c, level) } else { Seq::empty() })
        + (if m.y_pos { face_y_pos(c, level) } else { Seq::empty() })
        + (if m.y_neg { face_y_neg(c, level) } else { Seq::empty() })
        + (if m.z_pos { face_z_pos(c, level) } else { Seq::empty() })
        + (if m.z_neg { face_z_neg(c, level) } else { Seq::empty() })
}

/// The vertices of `t` all lie on the unit cube at `c`: each coordinate is
/// `c` or `c + 1` along its axis.
pub open spec fn tri_on_cube(t: GridTriangleModel, c: IntVec) -> bool {
    &&& c.x <= t.a.x <= c.x + 1 && c.y <= t.a.y <= c.y + 1 && c.z <= t.a.z <= c.z + 1
    &&& c.x <= t.b.x <= c.x + 1 && c.y <= t.b.y <= c.y + 1 && c.z <= t.b.z <= c.z + 1
    &&& c.x <= t.c.x <= c.x + 1 && c.y <= t.c.y <= c.y + 1 && c.z <= t.c.z <= c.z + 1
}

/// Every triangle a cube emits is well formed, its normal is the outward unit
/// axis vector of its face, its vertices stay on the cube, and a mask of `f`
/// faces yields exactly `2 * f` triangles.
pub proof fn lemma_cube_tris_wf(c: IntVec, level: nat, m: FaceMask)
    ensures
        cube_tris(c, level, m).len() == 2 * mask_faces(m),
        forall|i: int|
            0 <= i < cube_tris(c, level, m).len() ==> {
                &&& triangle_wf(#[trigger] cube_tris(c, level, m)[i])
                &&& unit_axis(cube_tris(c, level, m)[i].normal)
                &&& cube_tris(c, level, m)[i].level == level
                &&& tri_on_cube(cube_tris(c, level, m)[i], c)
            },
{
    lemma_small_products();
    assert(face_ok(face_x_pos(c, level), level, c));
    assert(face_ok(face_x_neg(c, level), level, c));
    assert(face_ok(face_y_pos(c, level), level, c));
    assert(face_ok(face_y_neg(c, level), level, c));
    assert(face_ok(face_z_pos(c, level), level, c));
    assert(face_ok(face_z_neg(c, level), level, c));
    assert(forall|i: int|
        0 <= i < cube_tris(c, level, m).len() ==> {
            &&& triangle_wf(#[trigger] cube_tris(c, level, m)[i])
            &&& unit_axis(cube_tris(c, level, m)[i].normal)
            &&& cube_tris(c, level, m)[i].level == level
            &&& tri_on_cube(cube_tris(c, level, m)[i], c)
        });
}

/// Evaluates every product of two factors from {-1, 0, 1}: the only products
/// a unit cube's face windings ever produce.
proof fn lemma_small_products()
    ensures
        forall|x: int, y: int|
            -1 <= x <= 1 && -1 <= y <= 1 ==> #[trigger] (x * y) == (if x == 0 || y == 0 {
                0int
            } else if x == y {
                1int
            } else {
                -1int
            }),
{
    assert forall|x: int, y: int| -1 <= x <= 1 && -1 <= y <= 1 implies #[trigger] (x * y) == (if x
        == 0 || y == 0 {
        0int
    } else if x == y {
        1int
    } else {
        -1int
    }) by {
        assert(x * y == (if x == 0 || y == 0 {
            0int
        } else if x == y {
            1int
        } else {
            -1int
        })) by (nonlinear_arith)
            requires
                -1 <= x <= 1,
                -1 <= y <= 1,
        ;
    };
}

/// Both triangles of a face pass every per-triangle check.
spec fn face_ok(f: Seq<GridTriangleModel>, level: nat, c: IntVec) -> bool {
    &&& f.len() == 2
    &&& forall|i: int|
        0 <= i < 2 ==> {
            &&& triangle_wf(#[trigger] f[i])
            &&& unit_axis(f[i].normal)
            &&& f[i].level == level
            &&& tri_on_cube(f[i], c)
        }
}

/// The models of a sequence of triangles.
pub open spec fn models_of(s: Seq<GridTriangle>) -> Seq<GridTriangleModel> {
    s.map_values(|t: GridTriangle| t@)
}

pub proof fn lemma_models_push(s: Seq<GridTriangle>, t: GridTriangle)
    ensures
        models_of(s.push(t)) =~= models_of(s).push(t@),
{
}

/// Corner `k` of the unit cube at `c`, computed on the lattice.
fn cube_vertex(c: GridVector, k: u64) -> (r: GridVector)
    requires
        c.in_range(),
        k < 8,
    ensures
        r@ == cube_corner(c@, k as int),
{
    let dx: u64 = k % 2;
    let dy: u64 = (k / 4) % 2;
    let dz: u64 = (k / 2) % 2;
    GridVector { x: c.x + dx, y: c.y + dy, z: c.z + dz }
}

/// Append the two triangles of one face.
fn push_face(
    out: &mut Vec<GridTriangle>,
    c: GridVector,
    level: u64,
    i1: u64,
    j1: u64,
    k1: u64,
    i2: u64,
    j2: u64,
    k2: u64,
    n: NormalVector,
)
    requires
        c.in_range(),
        i1 < 8 && j1 < 8 && k1 < 8 && i2 < 8 && j2 < 8 && k2 < 8,
    ensures
        models_of(final(out)@) =~= models_of(old(out)@) + seq![
            cube_tri(c@, level as nat, i1 as int, j1 as int, k1 as int, n@),
            cube_tri(c@, level as nat, i2 as int, j2 as int, k2 as int, n@),
        ],
{
    let ghost before = out@;
    let t1 = GridTriangle {
        a: cube_vertex(c, i1),
        b: cube_vertex(c, j1),
        c: cube_vertex(c, k1),
        normal: n,
        level,
    };
    out.push(t1);
    let t2 = GridTriangle {
        a: cube_vertex(c, i2),
        b: cube_vertex(c, j2),
        c: cube_vertex(c, k2),
        normal: n,
        level,
    };
    out.push(t2);
    proof {
        lemma_models_push(before, t1);
        lemma_models_push(before.push(t1), t2);
    }
}

/// Append the triangles of the cube at `c` for the faces the mask selects,
/// in the fixed face order.
#[verifier::rlimit(60)]
pub fn emit_cube(out: &mut Vec<GridTriangle>, c: GridVector, level: u64, m: FaceMask)
    requires
        c.in_range(),
    ensures
        models_of(final(out)@) == models_of(old(out)@) + cube_tris(c@, level as nat, m),
{
    let ghost base = models_of(old(out)@);
    if m.x_pos {
        push_face(out, c, level, 5, 7, 1, 7, 3, 1, NormalVector { x: 1, y: 0, z: 0 });
    }
    let ghost s1 = base + (if m.x_pos { face_x_pos(c@, level as nat) } else { Seq::empty() });
    assert(models_of(out@) =~= s1);
    if m.x_neg {
        push_face(out, c, level, 0, 2, 4, 2, 6, 4, NormalVector { x: -1, y: 0, z: 0 });
    }
    let ghost s2 = s1 + (if m.x_neg { face_x_neg(c@, level as nat) } else { Seq::empty() });
    assert(models_of(out@) =~= s2);
    if m.y_pos {
        push_face(out, c, level, 4, 6, 5, 6, 7, 5, NormalVector { x: 0, y: 1, z: 0 });
    }
    let ghost s3 = s2 + (if m.y_pos { face_y_pos(c@, level as nat) } else { Seq::empty() });
    assert(models_of(out@) =~= s3);
    if m.y_neg {
        push_face(out, c, level, 0, 1, 2, 1, 3, 2, NormalVector { x: 0, y: -1, z: 0 });
    }
    let ghost s4 = s3 + (if m.y_neg { face_y_neg(c@, level as nat) } else { Seq::empty() });
    assert(models_of(out@) =~= s4);
    if m.z_pos {
        push_face(out, c, level, 2, 3, 7, 2, 7, 6, NormalVector { x: 0, y: 0, z: 1 });
    }
    let ghost s5 = s4 + (if m.z_pos { face_z_pos(c@, level as nat) } else { Seq::empty() });
    assert(models_of(out@) =~= s5);
    if m.z_neg {
        push_face(out, c, level, 0, 4, 5, 0, 5, 1, NormalVector { x: 0, y: 0, z: -1 });
    }
    let ghost s6 = s5 + (if m.z_neg { face_z_neg(c@, level as nat) } else { Seq::empty() });
    assert(models_of(out@) =~= s6);
    assert(s6 =~= base + cube_tris(c@, level as nat, m));
}

/// Bounds the products inside a cross product of two difference vectors whose
/// entries came from coordinates at most `MAX_COORD`.
proof fn lemma_cross_products_fit(ux: i128, uy: i128, uz: i128, vx: i128, vy: i128, vz: i128)
    requires
        -(MAX_COORD as int) <= ux <= MAX_COORD as int,
        -(MAX_COORD as int) <= uy <= MAX_COORD as int,
        -(MAX_COORD as int) <= uz <= MAX_COORD as int,
        -(MAX_COORD as int) <= vx <= MAX_COORD as int,
        -(MAX_COORD as int) <= vy <= MAX_COORD as int,
        -(MAX_COORD as int) <= vz <= MAX_COORD as int,
    ensures
        -0x10000000000000000000000000000000 <= uy * vz <= 0x10000000000000000000000000000000,
        -0x10000000000000000000000000000000 <= uz * vy <= 0x10000000000000000000000000000000,
        -0x10000000000000000000000000000000 <= uz * vx <= 0x10000000000000000000000000000000,
        -0x10000000000000000000000000000000 <= ux * vz <= 0x10000000000000000000000000000000,
        -0x10000000000000000000000000000000 <= ux * vy <= 0x10000000000000000000000000000000,
        -0x10000000000000000000000000000000 <= uy * vx <= 0x10000000000000000000000000000000,
{
    let m = MAX_COORD as int;
    assert(m * m == 0x10000000000000000000000000000000) by (nonlinear_arith)
        requires
            m == 0x4000000000000000,
    ;
    lemma_product_bound(uy as int, vz as int, m);
    lemma_product_bound(uz as int, vy as int, m);
    lemma_product_bound(uz as int, vx as int, m);
    lemma_product_bound(ux as int, vz as int, m);
    lemma_product_bound(ux as int, vy as int, m);
    lemma_product_bound(uy as int, vx as int, m);
}

proof fn lemma_product_bound(p: int, q: int, m: int)
    requires
        0 <= m,
        -m <= p <= m,
        -m <= q <= m,
    ensures
        -m * m <= p * q <= m * m,
{
    assert(-m * m <= p * q <= m * m) by (nonlinear_arith)
        requires
            0 <= m,
            -m <= p <= m,
            -m <= q <= m,
    ;
}

} // verus!
