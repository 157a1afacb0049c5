//! The rhombus dual to a crossing, as four index vectors.
//!
//! An index vector holds one strip index per grid family. The base index
//! vector of a crossing says in which strip of every family the crossing
//! point lies. The four corners of the dual rhombus take the base vector and
//! replace the entries of the two crossing families `r` and `s` by the line
//! index, or the line index plus one, going round in the fixed order
//! `(0, 0), (1, 0), (1, 1), (0, 1)`.

use vstd::prelude::*;
use crate::cell::Cell;
use crate::classify::{category_of, classify, Category};
use crate::grid::Grid;

verus! {

/// Number of corners of a rhombus.
pub const CORNERS: usize = 4;

/// A rhombus of the tiling: the crossing it is dual to, its corners as
/// index vectors in drawing order, and its shape.
#[derive(Debug)]
pub struct Rhombus {
    /// The crossing that this rhombus is dual to.
    pub cell: Cell,
    /// The four corners, each an index vector with one entry per family.
    pub corners: Vec<Vec<i64>>,
    /// The shape, by which a fill is chosen.
    pub category: Category,
}

/// What a rhombus is, as mathematics.
pub struct RhombusView {
    pub cell: Cell,
    pub corners: Seq<Seq<i64>>,
    pub category: Category,
}

impl View for Rhombus {
    type V = RhombusView;

    open spec fn view(&self) -> RhombusView {
        RhombusView {
            cell: self.cell,
            corners: Seq::new(self.corners@.len(), |k: int| self.corners@[k]@),
            category: self.category,
        }
    }
}

/// How far corner `corner` is moved along family `r`.
pub open spec fn step_r(corner: int) -> int {
    if corner == 1 || corner == 2 {
        1
    } else {
        0
    }
}

/// How far corner `corner` is moved along family `s`.
pub open spec fn step_s(corner: int) -> int {
    if corner == 2 || corner == 3 {
        1
    } else {
        0
    }
}

/// The index vector of corner `corner` of the rhombus dual to `cell`, whose
/// crossing point has the base index vector `base`.
pub open spec fn corner_of(cell: Cell, base: Seq<i64>, corner: int) -> Seq<i64> {
    base.update(cell.r as int, (cell.kr + step_r(corner)) as i64).update(
        cell.s as int,
        (cell.ks + step_s(corner)) as i64,
    )
}

/// The rhombus that `grid` has for `cell` when the crossing point has the
/// base index vector `base`.
pub open spec fn rhombus_of(grid: Grid, cell: Cell, base: Seq<i64>) -> RhombusView {
    RhombusView {
        cell,
        corners: Seq::new(CORNERS as nat, |k: int| corner_of(cell, base, k)),
        category: category_of(cell.r as int, cell.s as int, grid.dimension as int),
    }
}

/// Computes one corner of the rhombus dual to `cell`.
pub fn corner_index(cell: &Cell, base: &Vec<i64>, corner: usize) -> (index: Vec<i64>)
    requires
        cell.r < cell.s < base.len(),
        corner < CORNERS,
    ensures
        index@ == corner_of(*cell, base@, corner as int),
{
    let dr: i64 = if corner == 1 || corner == 2 {
        1
    } else {
        0
    };
    let ds: i64 = if corner == 2 || corner == 3 {
        1
    } else {
        0
    };
    let mut index: Vec<i64> = Vec::with_capacity(base.len());
    let mut i: usize = 0;
    while i < base.len()
        invariant
            i <= base.len(),
            index@ == base@.subrange(0, i as int),
        decreases base.len() - i,
    {
        index.push(base[i]);
        i += 1;
    }
    assert(index@ == base@);
    index.set(cell.r, cell.kr as i64 + dr);
    index.set(cell.s, cell.ks as i64 + ds);
    index
}

/// Builds the rhombus dual to `cell` from the base index vector of its
/// crossing point.
pub fn build_rhombus(grid: &Grid, cell: Cell, base: &Vec<i64>) -> (tile: Rhombus)
    requires
        grid.has_cell(cell),
        base.len() == grid.dimension,
    ensures
        tile@ == rhombus_of(*grid, cell, base@),
{
    let mut corners: Vec<Vec<i64>> = Vec::with_capacity(CORNERS);
    let mut k: usize = 0;
    while k < CORNERS
        invariant
            k <= CORNERS,
            cell.r < cell.s < base.len(),
            corners.len() == k,
            forall|j: int| 0 <= j < k ==> (#[trigger] corners[j])@ == corner_of(cell, base@, j),
        decreases CORNERS - k,
    {
        let corner = corner_index(&cell, base, k);
        corners.push(corner);
        k += 1;
    }
    let category = classify(cell.r, cell.s, grid.dimension);
    let tile = Rhombus { cell, corners, category };
    assert(tile@.corners =~= rhombus_of(*grid, cell, base@).corners);
    tile
}

/// The four corners of a rhombus are four different index vectors.
pub proof fn lemma_corners_distinct(cell: Cell, base: Seq<i64>, j: int, k: int)
    requires
        cell.r < cell.s < base.len(),
        0 <= j < k < CORNERS,
    ensures
        corner_of(cell, base, j) != corner_of(cell, base, k),
{
    let a = corner_of(cell, base, j);
    let b = corner_of(cell, base, k);
    if step_r(j) != step_r(k) {
        assert(a[cell.r as int] != b[cell.r as int]);
    } else {
        assert(a[cell.s as int] != b[cell.s as int]);
    }
}

/// Going round a rhombus, each side changes one entry of the index vector by
/// one: up along family `r`, up along family `s`, down along `r`, down along
/// `s`. Opposite sides are therefore equal and opposite, and the outline
/// closes.
pub proof fn lemma_sides_are_unit_steps(cell: Cell, base: Seq<i64>)
    requires
        cell.r < cell.s < base.len(),
    ensures
        ({
            let c0 = corner_of(cell, base, 0);
            let c1 = corner_of(cell, base, 1);
            let c2 = corner_of(cell, base, 2);
            let c3 = corner_of(cell, base, 3);
            let r = cell.r as int;
            let s = cell.s as int;
            &&& c1 == c0.update(r, (c0[r] + 1) as i64)
            &&& c2 == c1.update(s, (c1[s] + 1) as i64)
            &&& c3 == c2.update(r, (c2[r] - 1) as i64)
            &&& c0 == c3.update(s, (c3[s] - 1) as i64)
        }),
{
    let c0 = corner_of(cell, base, 0);
    let c1 = corner_of(cell, base, 1);
    let c2 = corner_of(cell, base, 2);
    let c3 = corner_of(cell, base, 3);
    let r = cell.r as int;
    let s = cell.s as int;
    assert(c1 =~= c0.update(r, (c0[r] + 1) as i64));
    assert(c2 =~= c1.update(s, (c1[s] + 1) as i64));
    assert(c3 =~= c2.update(r, (c2[r] - 1) as i64));
    assert(c0 =~= c3.update(s, (c3[s] - 1) as i64));
}

/// Every corner has the line indices of the crossing, or one more, at the two
/// crossing families, and the base index everywhere else.
pub proof fn lemma_corner_entries(cell: Cell, base: Seq<i64>, corner: int, family: int)
    requires
        cell.r < cell.s < base.len(),
        0 <= corner < CORNERS,
        0 <= family < base.len(),
    ensures
        corner_of(cell, base, corner).len() == base.len(),
        corner_of(cell, base, corner)[family] == if family == cell.r {
            cell.kr + step_r(corner)
        } else if family == cell.s {
            cell.ks + step_s(corner)
        } else {
            base[family] as int
        },
{
}

} // verus!
