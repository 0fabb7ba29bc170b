//! The sponge itself: a sparse ternary tree over the lattice.
//!
//! A node covers an axis-aligned cube and splits it into a 3x3x3 grid of
//! cells, each Empty, Solid, or a nested node one level deeper.  Cells are
//! numbered `i = layer * 9 + row * 3 + col`, the X column fastest, then the Z
//! row, then the Y layer.  Seven fixed cells — the six face centres and the
//! core — start Empty at every level; the other twenty start Solid.
//!
//! A node at depth `level` has a lattice corner with coordinates below
//! `3^level`; its cells are unit cubes of the lattice one level deeper.

use vstd::prelude::*;
use crate::lattice::{
    GridVector, IntVec, GridTriangle, GridTriangleModel, FaceMask, NormalVector, full_mask,
    mask_faces, cube_tris, models_of, emit_cube, lemma_cube_tris_wf, triangle_wf, unit_axis,
    MAX_COORD,
};
use crate::stl::{Scalar, ScalarModel, Vector, VectorModel, Triangle, TriangleModel, STL};

verus! {

/// Mathematical model of one cell.
pub ghost enum CellModel {
    Empty,
    Solid,
    Node(SpongeModel),
}

/// Mathematical model of one node: its lattice corner, its depth, and its 27
/// cells.
pub ghost struct SpongeModel {
    pub corner: IntVec,
    pub level: nat,
    pub cells: Seq<CellModel>,
}

/// The seven cell indices removed at every subdivision level: the six face
/// centres and the central core.
pub open spec fn removed_cell(i: int) -> bool {
    i == 4 || i == 10 || i == 12 || i == 13 || i == 14 || i == 16 || i == 22
}

/// Grid coordinates of cell `i`: X column, Z row, Y layer.
pub open spec fn cell_col(i: int) -> int {
    i % 3
}

pub open spec fn cell_row(i: int) -> int {
    (i % 9) / 3
}

pub open spec fn cell_layer(i: int) -> int {
    i / 9
}

/// Lattice corner, one level deeper, of cell `i` of a node cornered at `c`.
pub open spec fn child_corner(c: IntVec, i: int) -> IntVec {
    IntVec {
        x: 3 * c.x + cell_col(i),
        y: 3 * c.y + cell_layer(i),
        z: 3 * c.z + cell_row(i),
    }
}

/// The index-only culling rule: a solid cell emits a face exactly when its
/// grid coordinate lies on that face's outer boundary layer of the parent
/// grid.  The rule never inspects neighbouring cells, so faces between
/// separately subdivided regions can still coincide; that approximation is
/// part of the design.
pub open spec fn cell_mask(i: int) -> FaceMask {
    FaceMask {
        x_pos: cell_col(i) == 2,
        x_neg: cell_col(i) == 0,
        y_pos: cell_layer(i) == 2,
        y_neg: cell_layer(i) == 0,
        z_pos: cell_row(i) == 2,
        z_neg: cell_row(i) == 0,
    }
}

/// 3^n: the lattice resolution at depth `n`.
pub open spec fn pow3(n: nat) -> nat
    decreases n,
{
    if n == 0 {
        1
    } else {
        3 * pow3((n - 1) as nat)
    }
}

/// 20^n: how many solid leaves an order-`n` sponge has.
pub open spec fn pow20(n: nat) -> nat
    decreases n,
{
    if n == 0 {
        1
    } else {
        20 * pow20((n - 1) as nat)
    }
}

/// A freshly initialised node: the canonical 20-Solid/7-Empty pattern.
pub open spec fn fresh_model(corner: IntVec, level: nat) -> SpongeModel {
    SpongeModel {
        corner,
        level,
        cells: Seq::new(
            27,
            |i: int|
                if removed_cell(i) {
                    CellModel::Empty
                } else {
                    CellModel::Solid
                },
        ),
    }
}

/// One subdivision step on a cell sitting at `corner` / `level`: Empty stays
/// Empty, Solid becomes a fresh nested node, a nested node is subdivided in
/// place.
pub open spec fn spongeify_cell(c: CellModel, corner: IntVec, level: nat) -> CellModel
    decreases c,
{
    match c {
        CellModel::Empty => CellModel::Empty,
        CellModel::Solid => CellModel::Node(fresh_model(corner, level)),
        CellModel::Node(n) => CellModel::Node(spongeify_model(n)),
    }
}

pub open spec fn spongeify_cells(s: SpongeModel, i: int) -> Seq<CellModel>
    decreases s, s.cells.len() - i,
{
    if i < 0 || i >= s.cells.len() {
        Seq::empty()
    } else {
        seq![spongeify_cell(s.cells[i], child_corner(s.corner, i), (s.level + 1) as nat)]
            + spongeify_cells(s, i + 1)
    }
}

/// One subdivision step on a whole node.
pub open spec fn spongeify_model(s: SpongeModel) -> SpongeModel
    decreases s, s.cells.len() + 1,
{
    SpongeModel { corner: s.corner, level: s.level, cells: spongeify_cells(s, 0) }
}

/// How many solid leaf cubes a cell holds.
pub open spec fn cell_solids(c: CellModel) -> nat
    decreases c,
{
    match c {
        CellModel::Empty => 0,
        CellModel::Solid => 1,
        CellModel::Node(n) => sponge_solids_from(n, 0),
    }
}

pub open spec fn sponge_solids_from(s: SpongeModel, i: int) -> nat
    decreases s, s.cells.len() - i,
{
    if i < 0 || i >= s.cells.len() {
        0
    } else {
        cell_solids(s.cells[i]) + sponge_solids_from(s, i + 1)
    }
}

/// How many solid leaf cubes a node holds.
pub open spec fn sponge_solids(s: SpongeModel) -> nat {
    sponge_solids_from(s, 0)
}

/// The triangles one cell contributes, under its mask.
pub open spec fn cell_tris(c: CellModel, corner: IntVec, level: nat, m: FaceMask) -> Seq<
    GridTriangleModel,
>
    decreases c, 28int,
{
    match c {
        CellModel::Empty => Seq::empty(),
        CellModel::Solid => cube_tris(corner, level, m),
        CellModel::Node(n) => sponge_tris_from(n, 0),
    }
}

pub open spec fn sponge_tris_from(s: SpongeModel, i: int) -> Seq<GridTriangleModel>
    decreases s, s.cells.len() - i,
{
    if i < 0 || i >= s.cells.len() {
        Seq::empty()
    } else {
        cell_tris(s.cells[i], child_corner(s.corner, i), (s.level + 1) as nat, cell_mask(i))
            + sponge_tris_from(s, i + 1)
    }
}

/// All triangles a node emits, cells in index order.
pub open spec fn sponge_tris(s: SpongeModel) -> Seq<GridTriangleModel> {
    sponge_tris_from(s, 0)
}

/// Structural invariant of a cell found at `corner` / `level`: a nested node
/// must sit exactly there and be well formed itself.
pub open spec fn cell_wf(c: CellModel, corner: IntVec, level: nat) -> bool
    decreases c,
{
    match c {
        CellModel::Empty => true,
        CellModel::Solid => true,
        CellModel::Node(n) => n.corner == corner && n.level == level && sponge_wf(n),
    }
}

pub open spec fn sponge_cells_wf(s: SpongeModel, i: int) -> bool
    decreases s, s.cells.len() - i,
{
    if i < 0 || i >= s.cells.len() {
        true
    } else {
        cell_wf(s.cells[i], child_corner(s.corner, i), (s.level + 1) as nat)
            && sponge_cells_wf(s, i + 1)
    }
}

/// Structural invariant of a node: 27 cells, a depth the lattice can carry,
/// a corner inside the depth's resolution, and well-formed children in their
/// places.
pub open spec fn sponge_wf(s: SpongeModel) -> bool
    decreases s, s.cells.len() + 1,
{
    &&& s.cells.len() == 27
    &&& s.level <= 38
    &&& 0 <= s.corner.x < pow3(s.level)
    &&& 0 <= s.corner.y < pow3(s.level)
    &&& 0 <= s.corner.z < pow3(s.level)
    &&& sponge_cells_wf(s, 0)
}

/// The deepest node level anywhere in a cell's subtree (`dflt` when none).
pub open spec fn cell_deepest(c: CellModel, dflt: nat) -> nat
    decreases c,
{
    match c {
        CellModel::Empty => dflt,
        CellModel::Solid => dflt,
        CellModel::Node(n) => sponge_deepest_from(n, 0),
    }
}

pub open spec fn sponge_deepest_from(s: SpongeModel, i: int) -> nat
    decreases s, s.cells.len() - i,
{
    if i < 0 || i >= s.cells.len() {
        s.level
    } else {
        let rest = sponge_deepest_from(s, i + 1);
        let here = cell_deepest(s.cells[i], s.level);
        if here > rest {
            here
        } else {
            rest
        }
    }
}

/// The deepest node level in a tree.
pub open spec fn deepest_level(s: SpongeModel) -> nat {
    sponge_deepest_from(s, 0)
}

// ---------------------------------------------------------------------------
// Facts about the model
// ---------------------------------------------------------------------------

/// `pow3` grows monotonically.
pub proof fn lemma_pow3_mono(a: nat, b: nat)
    requires
        a <= b,
    ensures
        pow3(a) <= pow3(b),
    decreases b,
{
    if a < b {
        lemma_pow3_mono(a, (b - 1) as nat);
    }
}

/// The lattice can carry every depth the sponge reaches: `3^39` is still
/// below `2^62`.
pub proof fn lemma_pow3_39_fits()
    ensures
        pow3(39) <= MAX_COORD,
{
    assert(pow3(39) == 4052555153018976267) by {
        reveal_with_fuel(pow3, 40);
    };
}

/// Element view of `spongeify_cells`.
pub proof fn lemma_spongeify_cells_props(s: SpongeModel, i: int)
    requires
        0 <= i <= s.cells.len(),
    ensures
        spongeify_cells(s, i).len() == s.cells.len() - i,
        forall|j: int|
            0 <= j < s.cells.len() - i ==> #[trigger] spongeify_cells(s, i)[j] == spongeify_cell(
                s.cells[i + j],
                child_corner(s.corner, i + j),
                (s.level + 1) as nat,
            ),
    decreases s.cells.len() - i,
{
    if i < s.cells.len() {
        lemma_spongeify_cells_props(s, i + 1);
    }
}

/// A well-formed node's cell `i` is well formed at its place.
pub proof fn lemma_cell_wf_at(s: SpongeModel, k: int, i: int)
    requires
        sponge_cells_wf(s, k),
        k <= i < s.cells.len(),
        0 <= k,
    ensures
        cell_wf(s.cells[i], child_corner(s.corner, i), (s.level + 1) as nat),
    decreases i - k,
{
    if k < i {
        lemma_cell_wf_at(s, k + 1, i);
    }
}

/// Conversely, cell-wise well-formedness gives the recursive predicate.
pub proof fn lemma_cells_wf_build(s: SpongeModel, k: int)
    requires
        0 <= k <= s.cells.len(),
        forall|i: int|
            k <= i < s.cells.len() ==> cell_wf(
                #[trigger] s.cells[i],
                child_corner(s.corner, i),
                (s.level + 1) as nat,
            ),
    ensures
        sponge_cells_wf(s, k),
    decreases s.cells.len() - k,
{
    if k < s.cells.len() {
        lemma_cells_wf_build(s, k + 1);
    }
}

/// A fresh node is well formed, has no nodes below its own level, and holds
/// exactly twenty solid cells.
pub proof fn lemma_fresh_props(corner: IntVec, level: nat)
    requires
        level <= 38,
        0 <= corner.x < pow3(level),
        0 <= corner.y < pow3(level),
        0 <= corner.z < pow3(level),
    ensures
        sponge_wf(fresh_model(corner, level)),
        deepest_level(fresh_model(corner, level)) == level,
        sponge_solids(fresh_model(corner, level)) == 20,
{
    let f = fresh_model(corner, level);
    assert forall|i: int| 0 <= i < f.cells.len() implies cell_wf(
        #[trigger] f.cells[i],
        child_corner(f.corner, i),
        (f.level + 1) as nat,
    ) by {
        assert(f.cells[i] is Empty || f.cells[i] is Solid);
    };
    lemma_cells_wf_build(f, 0);
    assert(deepest_level(f) == level) by {
        reveal_with_fuel(sponge_deepest_from, 28);
    };
    assert(sponge_solids(f) == 20) by {
        reveal_with_fuel(sponge_solids_from, 28);
    };
}

/// The deepest level of a tree is at least its root's level.
pub proof fn lemma_deepest_at_least(s: SpongeModel, i: int)
    requires
        0 <= i <= s.cells.len(),
    ensures
        sponge_deepest_from(s, i) >= s.level,
    decreases s.cells.len() - i,
{
    if i < s.cells.len() {
        lemma_deepest_at_least(s, i + 1);
    }
}

/// The deepest level bounds every cell's subtree.
pub proof fn lemma_deepest_covers(s: SpongeModel, k: int, i: int)
    requires
        0 <= k <= i < s.cells.len(),
    ensures
        cell_deepest(s.cells[i], s.level) <= sponge_deepest_from(s, k),
    decreases i - k,
{
    if k < i {
        lemma_deepest_covers(s, k + 1, i);
    }
}

/// One subdivision step keeps a node well formed, keeps its corner and level,
/// and deepens the tree by at most one level.
pub proof fn lemma_spongeify_wf(s: SpongeModel)
    requires
        sponge_wf(s),
        deepest_level(s) <= 37,
    ensures
        sponge_wf(spongeify_model(s)),
        spongeify_model(s).corner == s.corner,
        spongeify_model(s).level == s.level,
        deepest_level(spongeify_model(s)) <= deepest_level(s) + 1,
    decreases s, 28int,
{
    let t = spongeify_model(s);
    lemma_spongeify_cells_props(s, 0);
    assert forall|i: int| 0 <= i < t.cells.len() implies cell_wf(
        #[trigger] t.cells[i],
        child_corner(t.corner, i),
        (t.level + 1) as nat,
    ) && cell_deepest(t.cells[i], t.level) <= deepest_level(s) + 1 by {
        lemma_cell_wf_at(s, 0, i);
        lemma_deepest_covers(s, 0, i);
        lemma_deepest_at_least(s, 0);
        lemma_spongeify_cell_wf(
            s.cells[i],
            child_corner(s.corner, i),
            (s.level + 1) as nat,
            deepest_level(s),
        );
    };
    lemma_cells_wf_build(t, 0);
    lemma_deepest_at_least(s, 0);
    lemma_deepest_within(t, 0, deepest_level(s) + 1);
}

/// A cell-level companion to `lemma_spongeify_wf`: subdividing a cell that
/// sits at `corner` / `level` in a tree whose nodes reach at most `cap`
/// yields a well-formed cell whose nodes reach at most `cap + 1`.
pub proof fn lemma_spongeify_cell_wf(c: CellModel, corner: IntVec, level: nat, cap: nat)
    requires
        cell_wf(c, corner, level),
        level <= 38,
        0 <= corner.x < pow3(level),
        0 <= corner.y < pow3(level),
        0 <= corner.z < pow3(level),
        cell_deepest(c, 0) <= cap || c is Empty || c is Solid,
        level <= cap + 1,
        cap <= 37,
    ensures
        cell_wf(spongeify_cell(c, corner, level), corner, level),
        cell_deepest(spongeify_cell(c, corner, level), 0) <= cap + 1,
        spongeify_cell(c, corner, level) is Empty <==> c is Empty,
    decreases c,
{
    match c {
        CellModel::Empty => {
        }
        CellModel::Solid => {
            lemma_fresh_props(corner, level);
        }
        CellModel::Node(n) => {
            lemma_deepest_at_least(n, 0);
            lemma_spongeify_wf(n);
        }
    }
}

/// If every cell's subtree stays within `cap`, so does the node's maximum.
pub proof fn lemma_deepest_within(s: SpongeModel, i: int, cap: nat)
    requires
        0 <= i <= s.cells.len(),
        s.level <= cap,
        forall|j: int| 0 <= j < s.cells.len() ==> cell_deepest(#[trigger] s.cells[j], s.level) <= cap,
    ensures
        sponge_deepest_from(s, i) <= cap,
    decreases s.cells.len() - i,
{
    if i < s.cells.len() {
        lemma_deepest_within(s, i + 1, cap);
    }
}

/// A fresh node holds exactly twenty solid cells, wherever it sits.
pub proof fn lemma_fresh_solids(corner: IntVec, level: nat)
    ensures
        sponge_solids(fresh_model(corner, level)) == 20,
{
    assert(sponge_solids(fresh_model(corner, level)) == 20) by {
        reveal_with_fuel(sponge_solids_from, 28);
    };
}

/// Subdividing a cell multiplies its solid-leaf count by twenty.
pub proof fn lemma_spongeify_cell_solids(c: CellModel, corner: IntVec, level: nat)
    ensures
        cell_solids(spongeify_cell(c, corner, level)) == 20 * cell_solids(c),
    decreases c,
{
    match c {
        CellModel::Empty => {
        }
        CellModel::Solid => {
            lemma_fresh_solids(corner, level);
        }
        CellModel::Node(n) => {
            lemma_spongeify_solids_from(n, 0);
        }
    }
}

/// Subdividing a node multiplies its solid-leaf count by twenty.
pub proof fn lemma_spongeify_solids_from(s: SpongeModel, i: int)
    requires
        0 <= i <= s.cells.len(),
    ensures
        sponge_solids_from(spongeify_model(s), i) == 20 * sponge_solids_from(s, i),
    decreases s, s.cells.len() - i,
{
    lemma_spongeify_cells_props(s, 0);
    if i < s.cells.len() {
        lemma_spongeify_cell_solids(
            s.cells[i],
            child_corner(s.corner, i),
            (s.level + 1) as nat,
        );
        lemma_spongeify_solids_from(s, i + 1);
    }
}

/// Everything the triangle lemmas promise of one emitted triangle: it is well
/// formed, its normal is an outward unit axis vector, and its vertices lie
/// within the lattice resolution of its depth.
pub open spec fn tri_good(t: GridTriangleModel) -> bool {
    &&& triangle_wf(t)
    &&& unit_axis(t.normal)
    &&& 0 <= t.a.x <= pow3(t.level) && 0 <= t.a.y <= pow3(t.level) && 0 <= t.a.z <= pow3(t.level)
    &&& 0 <= t.b.x <= pow3(t.level) && 0 <= t.b.y <= pow3(t.level) && 0 <= t.b.z <= pow3(t.level)
    &&& 0 <= t.c.x <= pow3(t.level) && 0 <= t.c.y <= pow3(t.level) && 0 <= t.c.z <= pow3(t.level)
}

/// Triangles emitted by a cell at `corner` / `level` are good, and no deeper
/// than `cap + 1` when the cell's own nodes stay within `cap`.
pub proof fn lemma_cell_tris_good(c: CellModel, corner: IntVec, level: nat, m: FaceMask, cap: nat)
    requires
        cell_wf(c, corner, level),
        0 <= corner.x < pow3(level),
        0 <= corner.y < pow3(level),
        0 <= corner.z < pow3(level),
        c is Node ==> deepest_level(c->Node_0) <= cap,
        level <= cap + 1,
    ensures
        forall|j: int|
            0 <= j < cell_tris(c, corner, level, m).len() ==> {
                &&& tri_good(#[trigger] cell_tris(c, corner, level, m)[j])
                &&& cell_tris(c, corner, level, m)[j].level <= cap + 1
            },
    decreases c, 28int,
{
    match c {
        CellModel::Empty => {
        }
        CellModel::Solid => {
            lemma_cube_tris_wf(corner, level, m);
            assert forall|j: int| 0 <= j < cell_tris(c, corner, level, m).len() implies {
                &&& tri_good(#[trigger] cell_tris(c, corner, level, m)[j])
                &&& cell_tris(c, corner, level, m)[j].level <= cap + 1
            } by {
                assert(cell_tris(c, corner, level, m)[j] == cube_tris(corner, level, m)[j]);
            };
        }
        CellModel::Node(n) => {
            lemma_sponge_tris_good(n, 0);
            lemma_deepest_at_least(n, 0);
            assert forall|j: int| 0 <= j < cell_tris(c, corner, level, m).len() implies {
                &&& tri_good(#[trigger] cell_tris(c, corner, level, m)[j])
                &&& cell_tris(c, corner, level, m)[j].level <= cap + 1
            } by {
                assert(cell_tris(c, corner, level, m)[j] == sponge_tris_from(n, 0)[j]);
            };
        }
    }
}

/// Triangles emitted by a well-formed node are good, and no deeper than one
/// level below the deepest node of the tree.
pub proof fn lemma_sponge_tris_good(s: SpongeModel, i: int)
    requires
        sponge_wf(s),
        0 <= i <= s.cells.len(),
    ensures
        forall|j: int|
            0 <= j < sponge_tris_from(s, i).len() ==> {
                &&& tri_good(#[trigger] sponge_tris_from(s, i)[j])
                &&& sponge_tris_from(s, i)[j].level <= deepest_level(s) + 1
            },
    decreases s, s.cells.len() - i,
{
    if i < s.cells.len() {
        let ghost cap = cell_deepest(s.cells[i], s.level);
        lemma_cell_wf_at(s, 0, i);
        lemma_deepest_covers(s, 0, i);
        lemma_deepest_at_least(s, 0);
        if s.cells[i] is Node {
            lemma_deepest_at_least(s.cells[i]->Node_0, 0);
        }
        lemma_cell_tris_good(
            s.cells[i],
            child_corner(s.corner, i),
            (s.level + 1) as nat,
            cell_mask(i),
            cap,
        );
        lemma_sponge_tris_good(s, i + 1);
        let ghost head = cell_tris(
            s.cells[i],
            child_corner(s.corner, i),
            (s.level + 1) as nat,
            cell_mask(i),
        );
        assert forall|j: int| 0 <= j < sponge_tris_from(s, i).len() implies {
            &&& tri_good(#[trigger] sponge_tris_from(s, i)[j])
            &&& sponge_tris_from(s, i)[j].level <= deepest_level(s) + 1
        } by {
            if j < head.len() {
                assert(sponge_tris_from(s, i)[j] == head[j]);
            } else {
                assert(sponge_tris_from(s, i)[j] == sponge_tris_from(s, i + 1)[j - head.len()]);
            }
        };
    }
}

/// A cell behind a mask of at most three faces emits at most six triangles
/// per solid leaf.
pub proof fn lemma_cell_tris_count(c: CellModel, corner: IntVec, level: nat, m: FaceMask)
    requires
        mask_faces(m) <= 3,
    ensures
        cell_tris(c, corner, level, m).len() <= 6 * cell_solids(c),
    decreases c, 28int,
{
    match c {
        CellModel::Empty => {
        }
        CellModel::Solid => {
            lemma_cube_tris_wf(corner, level, m);
        }
        CellModel::Node(n) => {
            lemma_sponge_tris_count(n, 0);
        }
    }
}

/// The culled emission of a node yields at most six triangles per solid
/// leaf: every cell's index-derived mask selects at most three faces.
pub proof fn lemma_sponge_tris_count(s: SpongeModel, i: int)
    requires
        0 <= i <= s.cells.len(),
    ensures
        sponge_tris_from(s, i).len() <= 6 * sponge_solids_from(s, i),
    decreases s, s.cells.len() - i,
{
    if i < s.cells.len() {
        lemma_cell_tris_count(
            s.cells[i],
            child_corner(s.corner, i),
            (s.level + 1) as nat,
            cell_mask(i),
        );
        lemma_sponge_tris_count(s, i + 1);
    }
}

// ---------------------------------------------------------------------------
// The executable tree
// ---------------------------------------------------------------------------

/// One cell of a node's grid: empty space, a solid unit cube, or a nested
/// sponge one level deeper.
pub enum MengerSpongeComponent {
    Empty,
    Solid,
    Sponge(Box<MengerSponge>),
}

/// A sponge node: its 27 cells, its lattice corner and its depth.
pub struct MengerSponge {
    pub components: Vec<MengerSpongeComponent>,
    pub min_corner: GridVector,
    pub level: u64,
}

pub open spec fn component_model(c: MengerSpongeComponent) -> CellModel
    decreases c,
{
    match c {
        MengerSpongeComponent::Empty => CellModel::Empty,
        MengerSpongeComponent::Solid => CellModel::Solid,
        MengerSpongeComponent::Sponge(b) => CellModel::Node(node_model(*b)),
    }
}

pub open spec fn node_cells_model(s: MengerSponge, i: int) -> Seq<CellModel>
    decreases s, s.components@.len() - i,
{
    if i < 0 || i >= s.components@.len() {
        Seq::empty()
    } else {
        seq![component_model(s.components@[i])] + node_cells_model(s, i + 1)
    }
}

pub open spec fn node_model(s: MengerSponge) -> SpongeModel
    decreases s, s.components@.len() + 1,
{
    SpongeModel { corner: s.min_corner@, level: s.level as nat, cells: node_cells_model(s, 0) }
}

impl View for MengerSpongeComponent {
    type V = CellModel;

    open spec fn view(&self) -> CellModel {
        component_model(*self)
    }
}

impl View for MengerSponge {
    type V = SpongeModel;

    open spec fn view(&self) -> SpongeModel {
        node_model(*self)
    }
}

/// Element view of `node_cells_model`.
pub proof fn lemma_node_cells_model(s: MengerSponge, i: int)
    requires
        0 <= i <= s.components@.len(),
    ensures
        node_cells_model(s, i).len() == s.components@.len() - i,
        forall|j: int|
            0 <= j < s.components@.len() - i ==> #[trigger] node_cells_model(s, i)[j]
                == component_model(s.components@[i + j]),
    decreases s.components@.len() - i,
{
    if i < s.components@.len() {
        lemma_node_cells_model(s, i + 1);
    }
}

impl MengerSponge {
    /// A freshly initialised node covering the cube at `min_corner` /
    /// `level`: the twenty canonical solids, the seven canonical holes.
    pub fn new(min_corner: GridVector, level: u64) -> (r: MengerSponge)
        ensures
            r@ == fresh_model(min_corner@, level as nat),
    {
        let mut components: Vec<MengerSpongeComponent> = Vec::new();
        let mut i: usize = 0;
        while i < 27
            invariant
                i <= 27,
                components@.len() == i,
                forall|j: int|
                    0 <= j < i ==> component_model(#[trigger] components@[j]) == (if removed_cell(
                        j,
                    ) {
                        CellModel::Empty
                    } else {
                        CellModel::Solid
                    }),
            decreases 27 - i,
        {
            if i == 4 || i == 10 || i == 12 || i == 13 || i == 14 || i == 16 || i == 22 {
                components.push(MengerSpongeComponent::Empty);
            } else {
                components.push(MengerSpongeComponent::Solid);
            }
            i += 1;
        }
        let r = MengerSponge { components, min_corner, level };
        proof {
            lemma_node_cells_model(r, 0);
            assert(node_cells_model(r, 0) =~= fresh_model(min_corner@, level as nat).cells);
        }
        r
    }

    /// Apply one subdivision step in place: every solid cell becomes a fresh
    /// nested node, every nested node is subdivided recursively.
    pub fn spongeify(&mut self)
        requires
            sponge_wf(old(self)@),
            deepest_level(old(self)@) <= 37,
        ensures
            final(self)@ == spongeify_model(old(self)@),
        decreases *old(self),
    {
        let ghost orig = *self;
        proof {
            lemma_node_cells_model(orig, 0);
            lemma_deepest_at_least(orig@, 0);
            lemma_pow3_39_fits();
            lemma_pow3_mono((orig.level + 1) as nat, 39);
        }
        let mut done: Vec<MengerSpongeComponent> = Vec::new();
        let mut i: usize = 0;
        while i < 27
            invariant
                i <= 27,
                orig == *old(self),
                self.min_corner == orig.min_corner,
                self.level == orig.level,
                self.components@ == orig.components@.subrange(i as int, 27),
                done@.len() == i,
                sponge_wf(orig@),
                deepest_level(orig@) <= 37,
                orig.components@.len() == 27,
                orig.level <= 37,
                orig.min_corner.x < pow3(orig.level as nat),
                orig.min_corner.y < pow3(orig.level as nat),
                orig.min_corner.z < pow3(orig.level as nat),
                pow3((orig.level + 1) as nat) <= MAX_COORD,
                forall|j: int|
                    0 <= j < i ==> component_model(#[trigger] done@[j]) == spongeify_cell(
                        component_model(orig.components@[j]),
                        child_corner(orig.min_corner@, j),
                        (orig.level + 1) as nat,
                    ),
            decreases 27 - i,
        {
            let c = self.components.remove(0);
            proof {
                lemma_node_cells_model(orig, 0);
                assert(c == orig.components@[i as int]);
                assert(orig@.cells[i as int] == component_model(c));
                assert(decreases_to!(orig => orig.components));
                assert(decreases_to!(orig.components => orig.components@));
                assert(decreases_to!(orig.components@ => orig.components@[i as int]));
                assert(decreases_to!(*old(self) => c));
                lemma_cell_wf_at(orig@, 0, i as int);
                lemma_deepest_covers(orig@, 0, i as int);
                assert(self.components@ =~= orig.components@.subrange(i + 1, 27));
            }
            let iu: u64 = i as u64;
            let corner = GridVector {
                x: 3 * self.min_corner.x + iu % 3,
                y: 3 * self.min_corner.y + iu / 9,
                z: 3 * self.min_corner.z + (iu % 9) / 3,
            };
            assert(corner@ == child_corner(orig.min_corner@, i as int));
            let sub = Self::spongeify_component(c, corner, self.level + 1);
            done.push(sub);
            i += 1;
        }
        self.components = done;
        proof {
            lemma_node_cells_model(*self, 0);
            lemma_spongeify_cells_props(orig@, 0);
            assert(node_cells_model(*self, 0) =~= spongeify_model(orig@).cells);
        }
    }

    /// Subdivide one cell found at `corner` / `level`.
    fn spongeify_component(c: MengerSpongeComponent, corner: GridVector, level: u64) -> (r:
        MengerSpongeComponent)
        requires
            cell_wf(c@, corner@, level as nat),
            level <= 38,
            0 <= corner@.x < pow3(level as nat),
            0 <= corner@.y < pow3(level as nat),
            0 <= corner@.z < pow3(level as nat),
            c@ is Node ==> deepest_level(c@->Node_0) <= 37,
        ensures
            r@ == spongeify_cell(c@, corner@, level as nat),
        decreases c,
    {
        match c {
            MengerSpongeComponent::Empty => MengerSpongeComponent::Empty,
            MengerSpongeComponent::Solid => MengerSpongeComponent::Sponge(
                Box::new(MengerSponge::new(corner, level)),
            ),
            MengerSpongeComponent::Sponge(mut b) => {
                (&mut *b).spongeify();
                MengerSpongeComponent::Sponge(b)
            },
        }
    }
}

impl MengerSponge {
    /// Append this node's triangles to `triangles`: Empty cells contribute
    /// nothing, Solid cells emit their culled faces, nested nodes recurse.
    pub fn add_triangles(&self, triangles: &mut Vec<GridTriangle>)
        requires
            sponge_wf(self@),
        ensures
            models_of(final(triangles)@) == models_of(old(triangles)@) + sponge_tris(self@),
        decreases *self,
    {
        let ghost base = models_of(old(triangles)@);
        proof {
            lemma_node_cells_model(*self, 0);
        }
        let mut i: usize = 0;
        while i < 27
            invariant
                i <= 27,
                sponge_wf(self@),
                self.components@.len() == 27,
                models_of(triangles@) + sponge_tris_from(self@, i as int) == base + sponge_tris(
                    self@,
                ),
            decreases 27 - i,
        {
            proof {
                lemma_node_cells_model(*self, 0);
                lemma_cell_wf_at(self@, 0, i as int);
                lemma_pow3_39_fits();
                lemma_pow3_mono((self.level + 1) as nat, 39);
            }
            let ghost before = models_of(triangles@);
            let ghost seg = cell_tris(
                self@.cells[i as int],
                child_corner(self@.corner, i as int),
                (self@.level + 1) as nat,
                cell_mask(i as int),
            );
            let iu: u64 = i as u64;
            let corner = GridVector {
                x: 3 * self.min_corner.x + iu % 3,
                y: 3 * self.min_corner.y + iu / 9,
                z: 3 * self.min_corner.z + (iu % 9) / 3,
            };
            assert(corner@ == child_corner(self@.corner, i as int));
            match &self.components[i] {
                MengerSpongeComponent::Empty => {
                    assert(models_of(triangles@) =~= before + seg);
                },
                MengerSpongeComponent::Solid => {
                    let mask = FaceMask {
                        x_pos: iu % 3 == 2,
                        x_neg: iu % 3 == 0,
                        y_pos: iu / 9 == 2,
                        y_neg: iu / 9 == 0,
                        z_pos: (iu % 9) / 3 == 2,
                        z_neg: (iu % 9) / 3 == 0,
                    };
                    assert(mask == cell_mask(i as int));
                    emit_cube(triangles, corner, self.level + 1, mask);
                },
                MengerSpongeComponent::Sponge(b) => {
                    proof {
                        assert(decreases_to!(*self => self.components));
                        assert(decreases_to!(self.components => self.components@));
                        assert(decreases_to!(self.components@ => self.components@[i as int]));
                    }
                    b.add_triangles(triangles);
                },
            }
            proof {
                assert(models_of(triangles@) =~= before + seg);
                assert((before + seg) + sponge_tris_from(self@, i + 1) =~= before + (seg
                    + sponge_tris_from(self@, i + 1)));
                assert(seg + sponge_tris_from(self@, i + 1) == sponge_tris_from(self@, i as int));
            }
            i += 1;
        }
        proof {
            assert(sponge_tris_from(self@, 27) =~= Seq::empty());
            assert(models_of(triangles@) + sponge_tris_from(self@, 27) =~= models_of(triangles@));
        }
    }

    /// Flatten this node into its triangle list.
    pub fn to_triangles(&self) -> (out: Vec<GridTriangle>)
        requires
            sponge_wf(self@),
        ensures
            models_of(out@) == sponge_tris(self@),
    {
        let mut out: Vec<GridTriangle> = Vec::new();
        proof {
            assert(models_of(out@) =~= Seq::empty());
        }
        self.add_triangles(&mut out);
        proof {
            assert(Seq::empty() + sponge_tris(self@) =~= sponge_tris(self@));
        }
        out
    }
}

/// All triangles of a sponge rooted, standing alone, at `corner` / `level`:
/// a Solid root is one plain cube and emits all six faces.
pub open spec fn root_tris(c: CellModel, corner: IntVec, level: nat) -> Seq<GridTriangleModel> {
    cell_tris(c, corner, level, full_mask())
}

impl MengerSpongeComponent {
    /// The triangles of a whole sponge whose root cube sits at `corner` /
    /// `level`.
    pub fn to_triangles(&self, corner: GridVector, level: u64) -> (out: Vec<GridTriangle>)
        requires
            cell_wf(self@, corner@, level as nat),
            level <= 39,
            0 <= corner@.x < pow3(level as nat),
            0 <= corner@.y < pow3(level as nat),
            0 <= corner@.z < pow3(level as nat),
        ensures
            models_of(out@) == root_tris(self@, corner@, level as nat),
    {
        let mut out: Vec<GridTriangle> = Vec::new();
        proof {
            assert(models_of(out@) =~= Seq::empty());
        }
        match self {
            MengerSpongeComponent::Empty => {
                assert(models_of(out@) =~= root_tris(self@, corner@, level as nat));
            },
            MengerSpongeComponent::Solid => {
                proof {
                    lemma_pow3_39_fits();
                    lemma_pow3_mono(level as nat, 39);
                }
                let mask = FaceMask {
                    x_pos: true,
                    x_neg: true,
                    y_pos: true,
                    y_neg: true,
                    z_pos: true,
                    z_neg: true,
                };
                emit_cube(&mut out, corner, level, mask);
                proof {
                    assert(Seq::empty() + cube_tris(corner@, level as nat, full_mask())
                        =~= root_tris(self@, corner@, level as nat));
                }
            },
            MengerSpongeComponent::Sponge(b) => {
                b.add_triangles(&mut out);
                proof {
                    assert(Seq::empty() + sponge_tris(node_model(**b)) =~= root_tris(
                        self@,
                        corner@,
                        level as nat,
                    ));
                }
            },
        }
        out
    }
}

/// The lattice origin: the root cube's corner.
pub open spec fn origin() -> IntVec {
    IntVec { x: 0, y: 0, z: 0 }
}

/// A fresh node after `k` subdivision steps.
pub open spec fn spongeify_iter(s: SpongeModel, k: nat) -> SpongeModel
    decreases k,
{
    if k == 0 {
        s
    } else {
        spongeify_model(spongeify_iter(s, (k - 1) as nat))
    }
}

/// The sponge of a given order, rooted at the lattice origin: order 0 is a
/// single undivided solid cube; order `n >= 1` is a freshly initialised node
/// subdivided `n - 1` more times.
pub open spec fn generated_model(order: nat) -> CellModel {
    if order == 0 {
        CellModel::Solid
    } else {
        CellModel::Node(spongeify_iter(fresh_model(origin(), 0), (order - 1) as nat))
    }
}

/// Iterated subdivision of the fresh origin node: the tree stays well formed,
/// reaches at most `k` levels down, and its solid-leaf count is `20^(k+1)`.
pub proof fn lemma_spongeify_iter_props(k: nat)
    requires
        k <= 38,
    ensures
        sponge_wf(spongeify_iter(fresh_model(origin(), 0), k)),
        deepest_level(spongeify_iter(fresh_model(origin(), 0), k)) <= k,
        spongeify_iter(fresh_model(origin(), 0), k).corner == origin(),
        spongeify_iter(fresh_model(origin(), 0), k).level == 0,
        sponge_solids(spongeify_iter(fresh_model(origin(), 0), k)) == pow20((k + 1) as nat),
    decreases k,
{
    assert(pow20(1) == 20) by {
        reveal_with_fuel(pow20, 2);
    };
    if k == 0 {
        lemma_fresh_props(origin(), 0);
    } else {
        let prev = spongeify_iter(fresh_model(origin(), 0), (k - 1) as nat);
        lemma_spongeify_iter_props((k - 1) as nat);
        lemma_spongeify_wf(prev);
        lemma_spongeify_solids_from(prev, 0);
    }
}

/// Build the sponge of the given order: one solid root cube for order 0, a
/// fresh node subdivided `order - 1` times otherwise.  The lattice bound on
/// the depth is a machine limit: coordinates live in 64-bit integers.
pub fn generate_generic_sponge(order: u64) -> (root: MengerSpongeComponent)
    requires
        order <= 39,
    ensures
        root@ == generated_model(order as nat),
{
    if order == 0 {
        MengerSpongeComponent::Solid
    } else {
        let mut sponge = MengerSponge::new(GridVector::new(0, 0, 0), 0);
        proof {
            lemma_fresh_props(origin(), 0);
        }
        let mut k: u64 = 0;
        while k < order - 1
            invariant
                order >= 1,
                order <= 39,
                k <= order - 1,
                sponge@ == spongeify_iter(fresh_model(origin(), 0), k as nat),
                sponge_wf(sponge@),
                deepest_level(sponge@) <= k,
            decreases order - 1 - k,
        {
            let ghost prev = sponge@;
            sponge.spongeify();
            proof {
                lemma_spongeify_wf(prev);
            }
            k += 1;
        }
        MengerSpongeComponent::Sponge(Box::new(sponge))
    }
}

/// `20^n` is never zero.
pub proof fn lemma_pow20_pos(n: nat)
    ensures
        pow20(n) >= 1,
    decreases n,
{
    if n > 0 {
        lemma_pow20_pos((n - 1) as nat);
    }
}

/// The generated root is a well-formed sponge at the lattice origin.
pub proof fn lemma_generated_wf(order: nat)
    requires
        order <= 39,
    ensures
        cell_wf(generated_model(order), origin(), 0),
{
    if order >= 1 {
        lemma_spongeify_iter_props((order - 1) as nat);
    }
}

/// Solid-leaf count law: the sponge of order `n` holds exactly `20^n` solid
/// leaf cubes — 27 cells minus the 7 removed ones, compounded per level.
pub proof fn lemma_order_solids(order: nat)
    requires
        order <= 39,
    ensures
        cell_solids(generated_model(order)) == pow20(order),
{
    if order >= 1 {
        lemma_spongeify_iter_props((order - 1) as nat);
    }
}

/// Culling law: a naive emission of all six faces of every solid leaf would
/// produce `12 * 20^n` triangles.  The culled emission never exceeds that
/// bound; it meets it only for the bare order-0 cube, and stays strictly
/// below it for every order `n >= 1`.
pub proof fn lemma_culled_emission_bound(order: nat, corner: IntVec, level: nat)
    requires
        order <= 39,
    ensures
        root_tris(generated_model(order), corner, level).len() <= 12 * pow20(order),
        order == 0 ==> root_tris(generated_model(order), corner, level).len() == 12,
        order >= 1 ==> root_tris(generated_model(order), corner, level).len() < 12 * pow20(order),
{
    lemma_pow20_pos(order);
    if order == 0 {
        lemma_cube_tris_wf(corner, level, full_mask());
    } else {
        let s = spongeify_iter(fresh_model(origin(), 0), (order - 1) as nat);
        lemma_spongeify_iter_props((order - 1) as nat);
        lemma_sponge_tris_count(s, 0);
        assert(sponge_solids(s) == pow20(order));
    }
}

/// Every triangle of a generated sponge is well formed, carries an outward
/// unit axis normal derived from its winding, stays on the lattice of its
/// depth, and sits at depth at most `order`.
pub proof fn lemma_generated_tris_good(order: nat)
    requires
        order <= 39,
    ensures
        forall|j: int|
            0 <= j < root_tris(generated_model(order), origin(), 0).len() ==> {
                &&& tri_good(#[trigger] root_tris(generated_model(order), origin(), 0)[j])
                &&& root_tris(generated_model(order), origin(), 0)[j].level <= order
            },
{
    if order == 0 {
        lemma_cube_tris_wf(origin(), 0, full_mask());
        assert forall|j: int|
            0 <= j < root_tris(generated_model(order), origin(), 0).len() implies {
            &&& tri_good(#[trigger] root_tris(generated_model(order), origin(), 0)[j])
            &&& root_tris(generated_model(order), origin(), 0)[j].level <= order
        } by {
            assert(root_tris(generated_model(order), origin(), 0)[j] == cube_tris(
                origin(),
                0,
                full_mask(),
            )[j]);
        };
    } else {
        let s = spongeify_iter(fresh_model(origin(), 0), (order - 1) as nat);
        lemma_spongeify_iter_props((order - 1) as nat);
        lemma_sponge_tris_good(s, 0);
        assert forall|j: int|
            0 <= j < root_tris(generated_model(order), origin(), 0).len() implies {
            &&& tri_good(#[trigger] root_tris(generated_model(order), origin(), 0)[j])
            &&& root_tris(generated_model(order), origin(), 0)[j].level <= order
        } by {
            assert(root_tris(generated_model(order), origin(), 0)[j] == sponge_tris_from(s, 0)[j]);
        };
    }
}

// ---------------------------------------------------------------------------
// Serialisation bridge
// ---------------------------------------------------------------------------

/// The ready-made scalar encodings serialisation needs.  Entry `k` of an axis
/// table encodes the real coordinate at lattice value `k` — for a sponge of
/// order `n` over the cube at `o` with width `w`, that is `o + w * k / 3^n` —
/// and `neg`, `zero`, `pos` encode the numbers -1, 0 and 1 for the normals.
/// Producing the encodings takes floating-point arithmetic and is the
/// caller's; laying them out is verified here.
pub struct ScalarTable {
    pub xs: Vec<Scalar>,
    pub ys: Vec<Scalar>,
    pub zs: Vec<Scalar>,
    pub neg: Scalar,
    pub zero: Scalar,
    pub pos: Scalar,
}

pub ghost struct TableModel {
    pub xs: Seq<ScalarModel>,
    pub ys: Seq<ScalarModel>,
    pub zs: Seq<ScalarModel>,
    pub neg: ScalarModel,
    pub zero: ScalarModel,
    pub pos: ScalarModel,
}

impl View for ScalarTable {
    type V = TableModel;

    open spec fn view(&self) -> TableModel {
        TableModel {
            xs: self.xs@.map_values(|s: Scalar| s@),
            ys: self.ys@.map_values(|s: Scalar| s@),
            zs: self.zs@.map_values(|s: Scalar| s@),
            neg: self.neg@,
            zero: self.zero@,
            pos: self.pos@,
        }
    }
}

/// A lattice point encoded through the axis tables.
pub open spec fn encode_point(t: TableModel, p: IntVec) -> VectorModel {
    VectorModel { x: t.xs[p.x], y: t.ys[p.y], z: t.zs[p.z] }
}

/// One signed unit component encoded for a normal.
pub open spec fn encode_dir(t: TableModel, v: int) -> ScalarModel {
    if v < 0 {
        t.neg
    } else if v == 0 {
        t.zero
    } else {
        t.pos
    }
}

pub open spec fn encode_normal(t: TableModel, n: IntVec) -> VectorModel {
    VectorModel { x: encode_dir(t, n.x), y: encode_dir(t, n.y), z: encode_dir(t, n.z) }
}

/// A lattice triangle encoded into an STL record.
pub open spec fn encode_tri(t: TableModel, g: GridTriangleModel) -> TriangleModel {
    TriangleModel {
        a: encode_point(t, g.a),
        b: encode_point(t, g.b),
        c: encode_point(t, g.c),
        normal: encode_normal(t, g.normal),
    }
}

/// The triangle's vertices all have table entries.
pub open spec fn tri_in_table(g: GridTriangleModel, t: TableModel) -> bool {
    &&& 0 <= g.a.x < t.xs.len() && 0 <= g.b.x < t.xs.len() && 0 <= g.c.x < t.xs.len()
    &&& 0 <= g.a.y < t.ys.len() && 0 <= g.b.y < t.ys.len() && 0 <= g.c.y < t.ys.len()
    &&& 0 <= g.a.z < t.zs.len() && 0 <= g.b.z < t.zs.len() && 0 <= g.c.z < t.zs.len()
}

fn clone_scalar(s: &Scalar) -> (r: Scalar)
    ensures
        r@ == s@,
{
    Scalar { bits: s.bits, text: s.text.clone() }
}

fn encode_vertex(table: &ScalarTable, p: GridVector) -> (r: Vector)
    requires
        p@.x < table@.xs.len(),
        p@.y < table@.ys.len(),
        p@.z < table@.zs.len(),
    ensures
        r@ == encode_point(table@, p@),
{
    let nx = table.xs.len();
    let ny = table.ys.len();
    let nz = table.zs.len();
    let r = Vector {
        x: clone_scalar(&table.xs[p.x as usize]),
        y: clone_scalar(&table.ys[p.y as usize]),
        z: clone_scalar(&table.zs[p.z as usize]),
    };
    proof {
        assert(table@.xs[p@.x] == table.xs@[p@.x]@);
        assert(table@.ys[p@.y] == table.ys@[p@.y]@);
        assert(table@.zs[p@.z] == table.zs@[p@.z]@);
    }
    r
}

fn encode_dir_scalar(table: &ScalarTable, v: i128) -> (r: Scalar)
    ensures
        r@ == encode_dir(table@, v as int),
{
    if v < 0 {
        clone_scalar(&table.neg)
    } else if v == 0 {
        clone_scalar(&table.zero)
    } else {
        clone_scalar(&table.pos)
    }
}

fn encode_normal_vector(table: &ScalarTable, n: NormalVector) -> (r: Vector)
    ensures
        r@ == encode_normal(table@, n@),
{
    Vector {
        x: encode_dir_scalar(table, n.x),
        y: encode_dir_scalar(table, n.y),
        z: encode_dir_scalar(table, n.z),
    }
}

/// Turn lattice triangles into an STL mesh through the encodings: record `i`
/// of the result is exactly triangle `i` encoded.
pub fn triangles_to_stl(tris: &Vec<GridTriangle>, name: String, table: &ScalarTable) -> (r: STL)
    requires
        forall|i: int| 0 <= i < tris@.len() ==> tri_in_table(#[trigger] tris@[i]@, table@),
    ensures
        r@.name == name@,
        r@.triangles.len() == tris@.len(),
        forall|i: int|
            0 <= i < tris@.len() ==> r@.triangles[i] == encode_tri(table@, #[trigger] tris@[i]@),
{
    let mut stl = STL::init(name);
    let mut i: usize = 0;
    while i < tris.len()
        invariant
            i <= tris@.len(),
            stl@.name == name@,
            stl@.triangles.len() == i,
            forall|i2: int| 0 <= i2 < tris@.len() ==> tri_in_table(#[trigger] tris@[i2]@, table@),
            forall|j: int|
                0 <= j < i ==> stl@.triangles[j] == encode_tri(table@, #[trigger] tris@[j]@),
        decreases tris@.len() - i,
    {
        let g = &tris[i];
        proof {
            assert(tri_in_table(tris@[i as int]@, table@));
        }
        let t = Triangle {
            a: encode_vertex(table, g.a),
            b: encode_vertex(table, g.b),
            c: encode_vertex(table, g.c),
            normal: encode_normal_vector(table, g.normal),
        };
        stl.push_triangle(t);
        i += 1;
    }
    stl
}

impl MengerSponge {
    /// Flatten this node and serialise it through the encodings.
    pub fn to_stl(&self, name: String, table: &ScalarTable) -> (r: STL)
        requires
            sponge_wf(self@),
            forall|i: int|
                0 <= i < sponge_tris(self@).len() ==> tri_in_table(
                    #[trigger] sponge_tris(self@)[i],
                    table@,
                ),
        ensures
            r@.name == name@,
            r@.triangles.len() == sponge_tris(self@).len(),
            forall|i: int|
                0 <= i < sponge_tris(self@).len() ==> r@.triangles[i] == encode_tri(
                    table@,
                    #[trigger] sponge_tris(self@)[i],
                ),
    {
        let tris = self.to_triangles();
        proof {
            assert forall|i: int| 0 <= i < tris@.len() implies tri_in_table(
                #[trigger] tris@[i]@,
                table@,
            ) by {
                assert(tris@[i]@ == models_of(tris@)[i]);
            };
        }
        let r = triangles_to_stl(&tris, name, table);
        proof {
            assert forall|i: int| 0 <= i < sponge_tris(self@).len() implies r@.triangles[i]
                == encode_tri(table@, #[trigger] sponge_tris(self@)[i]) by {
                assert(tris@[i]@ == models_of(tris@)[i]);
            };
        }
        r
    }
}

impl MengerSpongeComponent {
    /// Flatten a whole sponge rooted at `corner` / `level` and serialise it
    /// through the encodings.
    pub fn to_stl(&self, corner: GridVector, level: u64, name: String, table: &ScalarTable) -> (r:
        STL)
        requires
            cell_wf(self@, corner@, level as nat),
            level <= 39,
            0 <= corner@.x < pow3(level as nat),
            0 <= corner@.y < pow3(level as nat),
            0 <= corner@.z < pow3(level as nat),
            forall|i: int|
                0 <= i < root_tris(self@, corner@, level as nat).len() ==> tri_in_table(
                    #[trigger] root_tris(self@, corner@, level as nat)[i],
                    table@,
                ),
        ensures
            r@.name == name@,
            r@.triangles.len() == root_tris(self@, corner@, level as nat).len(),
            forall|i: int|
                0 <= i < root_tris(self@, corner@, level as nat).len() ==> r@.triangles[i]
                    == encode_tri(table@, #[trigger] root_tris(self@, corner@, level as nat)[i]),
    {
        let tris = self.to_triangles(corner, level);
        proof {
            assert forall|i: int| 0 <= i < tris@.len() implies tri_in_table(
                #[trigger] tris@[i]@,
                table@,
            ) by {
                assert(tris@[i]@ == models_of(tris@)[i]);
            };
        }
        let r = triangles_to_stl(&tris, name, table);
        proof {
            let rt = root_tris(self@, corner@, level as nat);
            assert forall|i: int| 0 <= i < rt.len() implies r@.triangles[i] == encode_tri(
                table@,
                #[trigger] rt[i],
            ) by {
                assert(tris@[i]@ == models_of(tris@)[i]);
            };
        }
        r
    }
}

/// Determinism: generation is a function of the order alone.  Two roots that
/// both satisfy the generator's contract at the same order are the same tree
/// and emit the same triangle sequence; with the serialisation laws this
/// makes repeated runs byte-identical.
pub proof fn lemma_generation_deterministic(
    a: MengerSpongeComponent,
    b: MengerSpongeComponent,
    order: u64,
)
    requires
        order <= 39,
        a@ == generated_model(order as nat),
        b@ == generated_model(order as nat),
    ensures
        a@ == b@,
        root_tris(a@, origin(), 0) == root_tris(b@, origin(), 0),
{
}

} // verus!
