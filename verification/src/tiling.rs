//! The whole tiling: every crossing of the grid is visited once, in walk
//! order, and each crossing that is not degenerate gives one rhombus.
//!
//! Where two lines cross, and in which strip of every family that point
//! lies, is a matter of real numbers. The caller solves it and answers with a
//! `Crossing`; everything else is decided here.

use vstd::prelude::*;
use crate::cell::Cell;
use crate::classify::category_of;
use crate::error::TilingError;
use crate::grid::{pair_count, Grid, MIN_DIMENSION};
use crate::rhombus::{
    build_rhombus, lemma_corners_distinct, rhombus_of, Rhombus, RhombusView, CORNERS,
};

verus! {

/// What solving for the crossing point of two lines gave.
#[derive(Debug)]
pub enum Crossing {
    /// The two lines are parallel or too nearly so: no rhombus.
    Degenerate,
    /// The lines cross, and the point has this base index vector.
    Point(Vec<i64>),
}

impl View for Crossing {
    type V = Option<Seq<i64>>;

    open spec fn view(&self) -> Option<Seq<i64>> {
        match self {
            Crossing::Degenerate => None,
            Crossing::Point(base) => Some(base@),
        }
    }
}

/// The rhombi that the crossings `cells` give, in order, when solving them
/// gave `found`: one for each crossing that has a point, none for a
/// degenerate one.
pub open spec fn tiles_of(grid: Grid, cells: Seq<Cell>, found: Seq<Option<Seq<i64>>>) -> Seq<
    RhombusView,
>
    decreases cells.len(),
{
    if cells.len() == 0 || found.len() != cells.len() {
        Seq::empty()
    } else {
        let rest = tiles_of(grid, cells.drop_last(), found.drop_last());
        match found.last() {
            Some(base) => rest.push(rhombus_of(grid, cells.last(), base)),
            None => rest,
        }
    }
}

/// The rhombi of a vector, as mathematics.
pub open spec fn views(tiles: Seq<Rhombus>) -> Seq<RhombusView> {
    tiles.map_values(|t: Rhombus| t@)
}

impl Grid {
    /// `cells` is the walk of this grid: every crossing once, by rising rank.
    pub open spec fn is_walk(&self, cells: Seq<Cell>) -> bool {
        &&& cells.len() == self.cell_count()
        &&& forall|k: int|
            0 <= k < cells.len() ==> self.has_cell(#[trigger] cells[k]) && self.rank(cells[k])
                == k
    }
}

/// `found` holds, for each crossing of `cells`, an answer that `solve` gave
/// for it.
pub open spec fn answers<F: Fn(Cell) -> Crossing>(
    solve: F,
    cells: Seq<Cell>,
    found: Seq<Crossing>,
) -> bool {
    &&& found.len() == cells.len()
    &&& forall|k: int| 0 <= k < cells.len() ==> solve.ensures((cells[k],), #[trigger] found[k])
}

/// `tiles` is a tiling of `grid` as `solve` sees it: the rhombi that the
/// walk of the grid gives with some answers of `solve`, one answer for each
/// crossing.
pub open spec fn is_tiling<F: Fn(Cell) -> Crossing>(
    grid: Grid,
    solve: F,
    tiles: Seq<RhombusView>,
) -> bool {
    exists|cells: Seq<Cell>, found: Seq<Crossing>|
        {
            &&& grid.is_walk(cells)
            &&& #[trigger] answers(solve, cells, found)
            &&& tiles == tiles_of(grid, cells, answer_views(found))
        }
}

/// The answers of a run, as mathematics.
pub open spec fn answer_views(found: Seq<Crossing>) -> Seq<Option<Seq<i64>>> {
    found.map_values(|c: Crossing| c@)
}

/// Generates the tiling of the grid with `dimension` families and the lines
/// `-num_lines ..= num_lines` of each. `solve` is asked once for every
/// crossing, in walk order.
pub fn generate<F: Fn(Cell) -> Crossing>(dimension: usize, num_lines: i32, solve: F) -> (made:
    Result<Vec<Rhombus>, TilingError>)
    requires
        forall|c: Cell| (Grid { dimension, num_lines }).has_cell(c) ==> solve.requires((c,)),
        forall|c: Cell, base: Vec<i64>|
            (Grid { dimension, num_lines }).has_cell(c) && solve.ensures(
                (c,),
                Crossing::Point(base),
            ) ==> base.len() == dimension,
    ensures
        made is Err <==> dimension < MIN_DIMENSION,
        made matches Err(e) ==> e == TilingError::InvalidDimension,
        made matches Ok(tiles) ==> is_tiling((Grid { dimension, num_lines }), solve, views(tiles@)),
        made matches Ok(tiles) ==> tiles.len() <= (Grid { dimension, num_lines }).cell_count(),
{
    let grid = match Grid::new(dimension, num_lines) {
        Ok(grid) => grid,
        Err(e) => {
            return Err(e);
        },
    };
    let mut tiles: Vec<Rhombus> = Vec::new();
    let mut at: Option<Cell> = grid.first_cell();
    let ghost mut cells: Seq<Cell> = Seq::empty();
    let ghost mut found: Seq<Crossing> = Seq::empty();
    assert(views(tiles@) =~= tiles_of(grid, cells, answer_views(found)));
    while at.is_some()
        invariant
            grid == (Grid { dimension, num_lines }),
            forall|c: Cell| grid.has_cell(c) ==> solve.requires((c,)),
            forall|c: Cell, base: Vec<i64>|
                grid.has_cell(c) && solve.ensures((c,), Crossing::Point(base)) ==> base.len()
                    == dimension,
            answers(solve, cells, found),
            forall|k: int|
                0 <= k < cells.len() ==> grid.has_cell(#[trigger] cells[k]) && grid.rank(cells[k])
                    == k,
            match at {
                Some(c) => grid.has_cell(c) && grid.rank(c) == cells.len(),
                None => cells.len() == grid.cell_count(),
            },
            cells.len() <= grid.cell_count(),
            tiles.len() <= cells.len(),
            views(tiles@) == tiles_of(grid, cells, answer_views(found)),
        decreases grid.cell_count() - cells.len(),
    {
        let c = at.unwrap();
        proof {
            grid.lemma_rank_in_range(c);
        }
        let out = solve(c);
        let ghost before = tiles@;
        proof {
            let ghost longer = cells.push(c);
            let ghost more = found.push(out);
            assert(longer.drop_last() =~= cells);
            assert(answer_views(more).drop_last() =~= answer_views(found));
            assert(answer_views(more).last() == out@);
            cells = longer;
            found = more;
        }
        match out {
            Crossing::Point(base) => {
                let tile = build_rhombus(&grid, c, &base);
                tiles.push(tile);
                assert(views(tiles@) =~= views(before).push(tile@));
            },
            Crossing::Degenerate => {},
        }
        at = grid.next_cell(c);
    }
    assert(grid.is_walk(cells));
    Ok(tiles)
}

/// The answers `found` with every crossing of families `r` and `s` turned
/// degenerate.
pub open spec fn without_pair(
    cells: Seq<Cell>,
    found: Seq<Option<Seq<i64>>>,
    r: usize,
    s: usize,
) -> Seq<Option<Seq<i64>>> {
    Seq::new(
        found.len(),
        |k: int|
            if cells[k].r == r && cells[k].s == s {
                None
            } else {
                found[k]
            },
    )
}

/// A tiling has at most one rhombus for each crossing visited.
pub proof fn lemma_tiles_bounded(grid: Grid, cells: Seq<Cell>, found: Seq<Option<Seq<i64>>>)
    ensures
        tiles_of(grid, cells, found).len() <= cells.len(),
    decreases cells.len(),
{
    if cells.len() != 0 && found.len() == cells.len() {
        lemma_tiles_bounded(grid, cells.drop_last(), found.drop_last());
    }
}

/// Every rhombus of a tiling is the one that `rhombus_of` gives for some
/// crossing that was visited and found to have a point. The result is the
/// place of that crossing in `cells`.
pub proof fn lemma_tile_origin(
    grid: Grid,
    cells: Seq<Cell>,
    found: Seq<Option<Seq<i64>>>,
    i: int,
) -> (k: int)
    requires
        0 <= i < tiles_of(grid, cells, found).len(),
    ensures
        0 <= k < cells.len(),
        found.len() == cells.len(),
        found[k] matches Some(base) && tiles_of(grid, cells, found)[i] == rhombus_of(
            grid,
            cells[k],
            base,
        ),
    decreases cells.len(),
{
    let rest = tiles_of(grid, cells.drop_last(), found.drop_last());
    if found.last() is Some && i == rest.len() {
        cells.len() - 1
    } else {
        lemma_tile_origin(grid, cells.drop_last(), found.drop_last(), i)
    }
}

/// Every rhombus of a tiling belongs to a crossing of the grid, has four
/// corners with one entry per family, and no two of its corners are the
/// same index vector.
pub proof fn lemma_tiles_are_proper(
    grid: Grid,
    cells: Seq<Cell>,
    found: Seq<Option<Seq<i64>>>,
    i: int,
)
    requires
        forall|k: int| 0 <= k < cells.len() ==> grid.has_cell(#[trigger] cells[k]),
        forall|k: int|
            0 <= k < found.len() ==> (#[trigger] found[k] matches Some(base) ==> base.len()
                == grid.dimension),
        0 <= i < tiles_of(grid, cells, found).len(),
    ensures
        grid.has_cell(tiles_of(grid, cells, found)[i].cell),
        tiles_of(grid, cells, found)[i].corners.len() == CORNERS,
        forall|k: int|
            0 <= k < CORNERS ==> (#[trigger] tiles_of(grid, cells, found)[i].corners[k]).len()
                == grid.dimension,
        forall|j: int, k: int|
            0 <= j < k < CORNERS ==> tiles_of(grid, cells, found)[i].corners[j] != tiles_of(
                grid,
                cells,
                found,
            )[i].corners[k],
{
    let at = lemma_tile_origin(grid, cells, found, i);
    let base = found[at]->Some_0;
    let tile = tiles_of(grid, cells, found)[i];
    assert(tile == rhombus_of(grid, cells[at], base));
    assert forall|j: int, k: int| 0 <= j < k < CORNERS implies tile.corners[j]
        != tile.corners[k] by {
        lemma_corners_distinct(cells[at], base, j, k);
    }
}

/// Two rhombi of one tiling that come from the same pair of families have
/// the same category, whatever lines crossed and whatever was solved.
pub proof fn lemma_category_by_pair(
    grid: Grid,
    cells: Seq<Cell>,
    found: Seq<Option<Seq<i64>>>,
    i: int,
    j: int,
)
    requires
        0 <= i < tiles_of(grid, cells, found).len(),
        0 <= j < tiles_of(grid, cells, found).len(),
        tiles_of(grid, cells, found)[i].cell.r == tiles_of(grid, cells, found)[j].cell.r,
        tiles_of(grid, cells, found)[i].cell.s == tiles_of(grid, cells, found)[j].cell.s,
    ensures
        tiles_of(grid, cells, found)[i].category == tiles_of(grid, cells, found)[j].category,
        tiles_of(grid, cells, found)[i].category == category_of(
            tiles_of(grid, cells, found)[i].cell.r as int,
            tiles_of(grid, cells, found)[i].cell.s as int,
            grid.dimension as int,
        ),
{
    let _ = lemma_tile_origin(grid, cells, found, i);
    let _ = lemma_tile_origin(grid, cells, found, j);
}

/// A grid has one walk only.
pub proof fn lemma_walk_unique(grid: Grid, first: Seq<Cell>, second: Seq<Cell>)
    requires
        grid.is_walk(first),
        grid.is_walk(second),
    ensures
        first == second,
{
    assert forall|k: int| 0 <= k < first.len() implies first[k] == second[k] by {
        grid.lemma_rank_injective(first[k], second[k]);
    }
    assert(first =~= second);
}

/// Two runs over the same grid give the same tiling, rhombus for rhombus,
/// if the solver gives the same answer whenever it is asked about the same
/// crossing.
pub proof fn lemma_reproducible<F: Fn(Cell) -> Crossing>(
    grid: Grid,
    solve: F,
    first: Seq<RhombusView>,
    second: Seq<RhombusView>,
)
    requires
        is_tiling(grid, solve, first),
        is_tiling(grid, solve, second),
        forall|c: Cell, a: Crossing, b: Crossing|
            solve.ensures((c,), a) && solve.ensures((c,), b) ==> a@ == b@,
    ensures
        first == second,
{
    let (cells1, found1) = choose|cells: Seq<Cell>, found: Seq<Crossing>|
        {
            &&& grid.is_walk(cells)
            &&& #[trigger] answers(solve, cells, found)
            &&& first == tiles_of(grid, cells, answer_views(found))
        };
    let (cells2, found2) = choose|cells: Seq<Cell>, found: Seq<Crossing>|
        {
            &&& grid.is_walk(cells)
            &&& #[trigger] answers(solve, cells, found)
            &&& second == tiles_of(grid, cells, answer_views(found))
        };
    lemma_walk_unique(grid, cells1, cells2);
    assert(answer_views(found1) =~= answer_views(found2));
}

/// Turning every crossing of one pair of families degenerate removes the
/// rhombi of that pair from the tiling and leaves all others as they were,
/// in the same order.
pub proof fn lemma_degenerate_pair_skipped(
    grid: Grid,
    cells: Seq<Cell>,
    found: Seq<Option<Seq<i64>>>,
    r: usize,
    s: usize,
)
    requires
        found.len() == cells.len(),
    ensures
        tiles_of(grid, cells, without_pair(cells, found, r, s)) == tiles_of(
            grid,
            cells,
            found,
        ).filter(|t: RhombusView| !(t.cell.r == r && t.cell.s == s)),
    decreases cells.len(),
{
    let keep = |t: RhombusView| !(t.cell.r == r && t.cell.s == s);
    if cells.len() == 0 {
        assert(tiles_of(grid, cells, found).filter(keep) =~= Seq::empty()) by {
            reveal(Seq::filter);
        }
    } else {
        lemma_degenerate_pair_skipped(grid, cells.drop_last(), found.drop_last(), r, s);
        assert(without_pair(cells, found, r, s).drop_last() =~= without_pair(
            cells.drop_last(),
            found.drop_last(),
            r,
            s,
        ));
        let rest = tiles_of(grid, cells.drop_last(), found.drop_last());
        match found.last() {
            Some(base) => {
                rest.lemma_filter_push(rhombus_of(grid, cells.last(), base), keep);
            },
            None => {},
        }
    }
}

/// A grid whose largest line index is 0 has one line per family, and so one
/// crossing for each pair of families.
pub proof fn lemma_single_line_grid(grid: Grid)
    requires
        grid.num_lines == 0,
    ensures
        grid.cell_count() == pair_count(grid.dimension as int),
{
    assert(pair_count(grid.dimension as int) * (1 * 1) == pair_count(grid.dimension as int))
        by (nonlinear_arith);
}

} // verus!
