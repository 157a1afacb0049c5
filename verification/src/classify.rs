//! The two shapes of rhombus, told apart by how far the two grid families
//! that cross are from each other in the cyclic order of their directions.

use vstd::prelude::*;

verus! {

/// The shape of a rhombus.
#[derive(Clone, Copy, Debug, PartialEq, Eq, Structural)]
pub enum Category {
    /// The two families are neighbours in the cyclic order.
    Adjacent,
    /// The two families are further apart.
    NonAdjacent,
}

/// Distance from family `r` forward to family `s` around the cycle of
/// `dimension` families.
pub open spec fn cyclic_gap(r: int, s: int, dimension: int) -> int {
    (s - r) % dimension
}

/// Whether families `r` and `s` are neighbours in the cycle.
pub open spec fn is_adjacent(r: int, s: int, dimension: int) -> bool {
    cyclic_gap(r, s, dimension) == 1 || cyclic_gap(r, s, dimension) == dimension - 1
}

/// The category of the rhombi that families `r` and `s` give.
pub open spec fn category_of(r: int, s: int, dimension: int) -> Category {
    if is_adjacent(r, s, dimension) {
        Category::Adjacent
    } else {
        Category::NonAdjacent
    }
}

/// Classifies the rhombi dual to crossings of family `r` with family `s`.
pub fn classify(r: usize, s: usize, dimension: usize) -> (category: Category)
    requires
        r < dimension,
        s < dimension,
    ensures
        category == category_of(r as int, s as int, dimension as int),
        category == Category::Adjacent <==> is_adjacent(r as int, s as int, dimension as int),
{
    let gap: usize = if s >= r {
        s - r
    } else {
        dimension - (r - s)
    };
    assert(gap as int == cyclic_gap(r as int, s as int, dimension as int)) by {
        lemma_gap(r as int, s as int, dimension as int);
    }
    if gap == 1 || gap == dimension - 1 {
        Category::Adjacent
    } else {
        Category::NonAdjacent
    }
}

/// The cyclic gap, written without a remainder.
pub proof fn lemma_gap(r: int, s: int, dimension: int)
    requires
        0 <= r < dimension,
        0 <= s < dimension,
    ensures
        cyclic_gap(r, s, dimension) == if s >= r {
            s - r
        } else {
            dimension - (r - s)
        },
{
    if s >= r {
        vstd::arithmetic::div_mod::lemma_small_mod((s - r) as nat, dimension as nat);
    } else {
        vstd::arithmetic::div_mod::lemma_small_mod((dimension - (r - s)) as nat, dimension as nat);
        vstd::arithmetic::div_mod::lemma_mod_add_multiples_vanish(s - r, dimension);
    }
}

} // verus!
