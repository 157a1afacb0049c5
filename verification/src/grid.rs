//! The grid: how many families of lines there are, how many lines of each
//! are drawn, and at which angle each family stands.

use vstd::prelude::*;
use crate::error::TilingError;

verus! {

/// The smallest number of families for which lines cross at all.
pub const MIN_DIMENSION: usize = 2;

/// A multigrid of `dimension` families, each with the lines `-num_lines ..= num_lines`.
#[derive(Clone, Copy, Debug, PartialEq, Eq, Structural)]
pub struct Grid {
    /// Number of families of parallel lines.
    pub dimension: usize,
    /// Largest line index of each family; a negative value leaves no line.
    pub num_lines: i32,
}

/// Number of lines of one family when the largest index is `num_lines`.
pub open spec fn lines_per_family(num_lines: int) -> int {
    if num_lines < 0 {
        0
    } else {
        2 * num_lines + 1
    }
}

/// Number of unordered pairs of distinct families.
pub open spec fn pair_count(dimension: int) -> int {
    dimension * (dimension - 1) / 2
}

/// Multiple of `pi / dimension` at which family `i` stands: the families
/// are spread over a half turn when their number is even and over a full
/// turn when it is odd.
pub open spec fn angle_steps(i: int, dimension: int) -> int {
    if dimension % 2 == 0 {
        i
    } else {
        2 * i
    }
}

/// Two families are parallel when their angles differ by a multiple of a
/// half turn, which is `dimension` steps.
pub open spec fn parallel(i: int, j: int, dimension: int) -> bool {
    (angle_steps(j, dimension) - angle_steps(i, dimension)) % dimension == 0
}

impl Grid {
    /// Every grid that `new` hands out has at least two families.
    pub open spec fn wf(&self) -> bool {
        self.dimension >= MIN_DIMENSION
    }

    /// The grid of `dimension` families and line indices up to
    /// `num_lines`, refused when fewer than two families are asked for.
    pub fn new(dimension: usize, num_lines: i32) -> (made: Result<Grid, TilingError>)
        ensures
            dimension < MIN_DIMENSION <==> made is Err,
            made matches Err(e) ==> e == TilingError::InvalidDimension,
            made matches Ok(g) ==> g.wf() && g.dimension == dimension && g.num_lines
                == num_lines,
    {
        if dimension < MIN_DIMENSION {
            Err(TilingError::InvalidDimension)
        } else {
            Ok(Grid { dimension, num_lines })
        }
    }

    /// The angle of family `family`, as a number of steps of `pi / dimension`.
    pub fn angle_steps(&self, family: usize) -> (steps: u128)
        requires
            family < self.dimension,
        ensures
            steps == angle_steps(family as int, self.dimension as int),
    {
        if self.dimension % 2 == 0 {
            family as u128
        } else {
            2 * (family as u128)
        }
    }
}

/// No two distinct families of a grid are parallel: with an even number of
/// families on a half turn, or an odd number on a full turn, every pair of
/// families crosses.
pub proof fn lemma_families_cross(i: int, j: int, dimension: int)
    requires
        0 <= i < j < dimension,
    ensures
        !parallel(i, j, dimension),
{
    if dimension % 2 == 0 {
        vstd::arithmetic::div_mod::lemma_small_mod((j - i) as nat, dimension as nat);
    } else {
        lemma_double_is_no_multiple(j - i, dimension);
    }
}

/// Twice a number below an odd `n`, and above 0, is no multiple of `n`.
proof fn lemma_double_is_no_multiple(d: int, n: int)
    requires
        0 < d < n,
        n % 2 == 1,
    ensures
        (2 * d) % n != 0,
{
    if (2 * d) % n == 0 {
        // 0 < 2d < 2n leaves 2d == n, but n is odd.
        let q: int = (2 * d) / n;
        vstd::arithmetic::div_mod::lemma_fundamental_div_mod(2 * d, n);
        assert(q == 1) by (nonlinear_arith)
            requires
                2 * d == n * q,
                0 < d < n,
        ;
        assert(n * q == n) by (nonlinear_arith)
            requires
                q == 1,
        ;
    }
}

} // verus!
