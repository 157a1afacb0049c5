//! Crossings of two grid lines, and the order in which a grid is walked.
//!
//! A crossing is named by the two lines that meet in it: line `kr` of family
//! `r` and line `ks` of family `s`, with `r < s`. The walk visits the pairs of
//! families in lexicographic order and, for each pair, every `kr` and under it
//! every `ks` in rising order.

use vstd::prelude::*;
use vstd::arithmetic::div_mod::lemma_fundamental_div_mod_converse;
use crate::grid::{lines_per_family, pair_count, Grid, MIN_DIMENSION};

verus! {

/// The crossing of line `kr` of family `r` with line `ks` of family `s`.
#[derive(Clone, Copy, Debug, PartialEq, Eq, Structural)]
pub struct Cell {
    /// The lower of the two families.
    pub r: usize,
    /// The higher of the two families.
    pub s: usize,
    /// Line index within family `r`.
    pub kr: i32,
    /// Line index within family `s`.
    pub ks: i32,
}

/// Number of pairs of families `(a, b)`, `a < b < dimension`, with `a < r`.
pub open spec fn pairs_before(r: nat, dimension: int) -> int
    decreases r,
{
    if r == 0 {
        0
    } else {
        pairs_before((r - 1) as nat, dimension) + (dimension - r)
    }
}

/// Place of the pair `(r, s)` among the pairs of families in lexicographic order.
pub open spec fn pair_index(r: int, s: int, dimension: int) -> int {
    pairs_before(r as nat, dimension) + (s - r - 1)
}

impl Grid {
    /// The crossings of this grid.
    pub open spec fn has_cell(&self, c: Cell) -> bool {
        &&& c.r < c.s < self.dimension
        &&& -self.num_lines <= c.kr <= self.num_lines
        &&& -self.num_lines <= c.ks <= self.num_lines
    }

    /// Number of crossings of this grid.
    pub open spec fn cell_count(&self) -> int {
        pair_count(self.dimension as int) * (lines_per_family(self.num_lines as int)
            * lines_per_family(self.num_lines as int))
    }

    /// Place of a crossing in the walk, counted from 0.
    pub open spec fn rank(&self, c: Cell) -> int {
        let w = lines_per_family(self.num_lines as int);
        pair_index(c.r as int, c.s as int, self.dimension as int) * (w * w) + ((c.kr
            + self.num_lines) * w + (c.ks + self.num_lines))
    }

    /// Where the walk starts: the lowest lines of families 0 and 1, if the
    /// grid has two families and a line.
    pub fn first_cell(&self) -> (first: Option<Cell>)
        ensures
            first is None <==> self.cell_count() == 0,
            first matches Some(c) ==> self.has_cell(c) && self.rank(c) == 0 && c == (Cell {
                r: 0,
                s: 1,
                kr: (-self.num_lines) as i32,
                ks: (-self.num_lines) as i32,
            }),
    {
        proof {
            let w = lines_per_family(self.num_lines as int);
            let p = pair_count(self.dimension as int);
            if self.dimension >= MIN_DIMENSION {
                lemma_pair_count_positive(self.dimension as int);
            } else {
                assert(p == 0) by (nonlinear_arith)
                    requires
                        p == self.dimension * (self.dimension - 1) / 2,
                        0 <= self.dimension < MIN_DIMENSION,
                ;
            }
            assert(p > 0 && w > 0 ==> p * (w * w) > 0) by (nonlinear_arith);
            assert(p == 0 || w == 0 ==> p * (w * w) == 0) by (nonlinear_arith);
            assert(0 * (w * w) == 0 && 0 * w == 0) by (nonlinear_arith);
            reveal_with_fuel(pairs_before, 1);
        }
        if self.dimension < MIN_DIMENSION || self.num_lines < 0 {
            None
        } else {
            Some(Cell { r: 0, s: 1, kr: -self.num_lines, ks: -self.num_lines })
        }
    }

    /// The crossing that the walk visits after `c`, if `c` is not the last.
    pub fn next_cell(&self, c: Cell) -> (next: Option<Cell>)
        requires
            self.has_cell(c),
        ensures
            next is None <==> self.rank(c) + 1 == self.cell_count(),
            next matches Some(n) ==> self.has_cell(n) && self.rank(n) == self.rank(c) + 1,
            next == self.successor(c),
    {
        proof {
            self.lemma_successor(c);
        }
        if c.ks < self.num_lines {
            Some(Cell { r: c.r, s: c.s, kr: c.kr, ks: c.ks + 1 })
        } else if c.kr < self.num_lines {
            Some(Cell { r: c.r, s: c.s, kr: c.kr + 1, ks: -self.num_lines })
        } else if c.s + 1 < self.dimension {
            Some(Cell { r: c.r, s: c.s + 1, kr: -self.num_lines, ks: -self.num_lines })
        } else if c.r + 2 < self.dimension {
            Some(Cell { r: c.r + 1, s: c.r + 2, kr: -self.num_lines, ks: -self.num_lines })
        } else {
            None
        }
    }

    /// The crossing after `c`: the next line of family `s`; when those are
    /// used up, the next line of family `r`; then the next family `s`; then
    /// the next family `r`.
    pub open spec fn successor(&self, c: Cell) -> Option<Cell> {
        let low = (-self.num_lines) as i32;
        if c.ks < self.num_lines {
            Some(Cell { r: c.r, s: c.s, kr: c.kr, ks: (c.ks + 1) as i32 })
        } else if c.kr < self.num_lines {
            Some(Cell { r: c.r, s: c.s, kr: (c.kr + 1) as i32, ks: low })
        } else if c.s + 1 < self.dimension {
            Some(Cell { r: c.r, s: (c.s + 1) as usize, kr: low, ks: low })
        } else if c.r + 2 < self.dimension {
            Some(Cell { r: (c.r + 1) as usize, s: (c.r + 2) as usize, kr: low, ks: low })
        } else {
            None
        }
    }

    /// Each step of the walk stays in the grid and raises the rank by one,
    /// and the walk stops exactly at the crossing of the highest rank.
    pub proof fn lemma_successor(&self, c: Cell)
        requires
            self.has_cell(c),
        ensures
            self.successor(c) is None <==> self.rank(c) + 1 == self.cell_count(),
            self.successor(c) matches Some(n) ==> self.has_cell(n) && self.rank(n) == self.rank(
                c,
            ) + 1,
    {
        let n = self.dimension as int;
        let l = self.num_lines as int;
        let w = lines_per_family(l);
        let p = pair_index(c.r as int, c.s as int, n);
        let a = c.kr + l;
        let b = c.ks + l;
        self.lemma_rank_in_range(c);
        lemma_pairs_before_total(n);
        lemma_pairs_before_monotone(c.r as int + 1, n, n);
        assert(pairs_before((c.r + 1) as nat, n) == pairs_before(c.r as nat, n)
            + (n - (c.r + 1)));
        if let Some(next) = self.successor(c) {
            self.lemma_rank_in_range(next);
        }
        if c.ks < self.num_lines {
        } else if c.kr < self.num_lines {
            assert((a + 1) * w + 0 == a * w + b + 1) by (nonlinear_arith)
                requires
                    b + 1 == w,
            ;
        } else {
            assert(a * w + b + 1 == w * w) by (nonlinear_arith)
                requires
                    a + 1 == w,
                    b + 1 == w,
            ;
            assert(0 * w + 0 == 0) by (nonlinear_arith);
            assert((p + 1) * (w * w) == p * (w * w) + w * w) by (nonlinear_arith);
            if c.s + 1 < self.dimension {
            } else if c.r + 2 < self.dimension {
                assert(pair_index(c.r + 1, c.r + 2, n) == p + 1);
            } else {
                assert(c.r + 2 == n);
                assert(pairs_before((c.r + 2) as nat, n) == pairs_before((c.r + 1) as nat, n)
                    + (n - (c.r + 2)));
                assert(p + 1 == pair_count(n));
            }
        }
    }

    /// The ranks of a grid's crossings are the numbers below its count.
    pub proof fn lemma_rank_in_range(&self, c: Cell)
        requires
            self.has_cell(c),
        ensures
            0 <= self.rank(c) < self.cell_count(),
            0 <= pair_index(c.r as int, c.s as int, self.dimension as int) < pair_count(
                self.dimension as int,
            ),
    {
        let n = self.dimension as int;
        let l = self.num_lines as int;
        let w = lines_per_family(l);
        let p = pair_index(c.r as int, c.s as int, n);
        let a = c.kr + l;
        let b = c.ks + l;
        lemma_pairs_before_total(n);
        lemma_pairs_before_monotone(0, c.r as int, n);
        lemma_pairs_before_monotone(c.r as int + 1, n, n);
        assert(pairs_before((c.r + 1) as nat, n) == pairs_before(c.r as nat, n)
            + (n - (c.r + 1)));
        assert(0 <= p < pair_count(n));
        assert(0 <= a * w + b < w * w) by (nonlinear_arith)
            requires
                0 <= a < w,
                0 <= b < w,
        ;
        assert(0 <= p * (w * w) + (a * w + b) < pair_count(n) * (w * w)) by (nonlinear_arith)
            requires
                0 <= p < pair_count(n),
                0 <= a * w + b < w * w,
        ;
    }

    /// No two crossings of a grid share a rank, so the walk, which counts the
    /// ranks up from 0, visits every crossing exactly once.
    pub proof fn lemma_rank_injective(&self, c: Cell, d: Cell)
        requires
            self.has_cell(c),
            self.has_cell(d),
            self.rank(c) == self.rank(d),
        ensures
            c == d,
    {
        let n = self.dimension as int;
        let l = self.num_lines as int;
        let w = lines_per_family(l);
        let pc = pair_index(c.r as int, c.s as int, n);
        let pd = pair_index(d.r as int, d.s as int, n);
        let lc = (c.kr + l) * w + (c.ks + l);
        let ld = (d.kr + l) * w + (d.ks + l);
        assert(0 <= lc < w * w) by (nonlinear_arith)
            requires
                0 <= c.kr + l < w,
                0 <= c.ks + l < w,
                lc == (c.kr + l) * w + (c.ks + l),
        ;
        assert(0 <= ld < w * w) by (nonlinear_arith)
            requires
                0 <= d.kr + l < w,
                0 <= d.ks + l < w,
                ld == (d.kr + l) * w + (d.ks + l),
        ;
        lemma_fundamental_div_mod_converse(self.rank(c), w * w, pc, lc);
        lemma_fundamental_div_mod_converse(self.rank(d), w * w, pd, ld);
        assert(pc == pd && lc == ld);
        lemma_fundamental_div_mod_converse(lc, w, c.kr + l, c.ks + l);
        lemma_fundamental_div_mod_converse(ld, w, d.kr + l, d.ks + l);
        lemma_pair_index_injective(c.r as int, c.s as int, d.r as int, d.s as int, n);
    }
}

/// A pair of families is known by its place in the lexicographic order.
pub proof fn lemma_pair_index_injective(r1: int, s1: int, r2: int, s2: int, dimension: int)
    requires
        0 <= r1 < s1 < dimension,
        0 <= r2 < s2 < dimension,
        pair_index(r1, s1, dimension) == pair_index(r2, s2, dimension),
    ensures
        r1 == r2,
        s1 == s2,
{
    assert(pairs_before((r1 + 1) as nat, dimension) == pairs_before(r1 as nat, dimension)
        + (dimension - (r1 + 1)));
    assert(pairs_before((r2 + 1) as nat, dimension) == pairs_before(r2 as nat, dimension)
        + (dimension - (r2 + 1)));
    if r1 < r2 {
        lemma_pairs_before_monotone(r1 + 1, r2, dimension);
    } else if r2 < r1 {
        lemma_pairs_before_monotone(r2 + 1, r1, dimension);
    }
}

/// Up to `dimension`, more families below means no fewer pairs before.
pub proof fn lemma_pairs_before_monotone(a: int, b: int, dimension: int)
    requires
        0 <= a <= b <= dimension,
    ensures
        pairs_before(a as nat, dimension) <= pairs_before(b as nat, dimension),
    decreases b - a,
{
    if a < b {
        lemma_pairs_before_monotone(a, b - 1, dimension);
    }
}

/// Twice the number of pairs before family `r`, in closed form.
pub proof fn lemma_pairs_before_closed(r: int, dimension: int)
    requires
        0 <= r,
    ensures
        2 * pairs_before(r as nat, dimension) == r * (2 * dimension - r - 1),
    decreases r,
{
    if r > 0 {
        lemma_pairs_before_closed(r - 1, dimension);
        assert(r * (2 * dimension - r - 1) == (r - 1) * (2 * dimension - (r - 1) - 1)
            + 2 * (dimension - r)) by (nonlinear_arith);
    } else {
        assert(0 * (2 * dimension - 0 - 1) == 0) by (nonlinear_arith);
    }
}

/// All pairs of families lie before family `dimension`.
pub proof fn lemma_pairs_before_total(dimension: int)
    requires
        0 <= dimension,
    ensures
        pairs_before(dimension as nat, dimension) == pair_count(dimension),
{
    lemma_pairs_before_closed(dimension, dimension);
    assert(dimension * (2 * dimension - dimension - 1) == dimension * (dimension - 1))
        by (nonlinear_arith);
}

/// Two families or more make at least one pair.
pub proof fn lemma_pair_count_positive(dimension: int)
    requires
        dimension >= 2,
    ensures
        pair_count(dimension) >= 1,
{
    assert(dimension * (dimension - 1) >= 2) by (nonlinear_arith)
        requires
            dimension >= 2,
    ;
}

} // verus!
