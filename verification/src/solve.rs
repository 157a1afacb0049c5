//! Where two grid lines cross, and in which strips the crossing point
//! lies, in exact arithmetic.
//!
//! The caller of this crate solves each crossing in floating point. This
//! module says what that computation stands for over the real numbers, and
//! why the rhombus takes the line indices of the two crossing families as
//! they are instead of rounding them.

use vstd::prelude::*;
use crate::algebra::{lemma_cramer, lemma_determinant};
use crate::cell::Cell;
use crate::geometry::Vector;
use crate::rhombus::corner_of;

verus! {

/// The least integer that is not below `value`.
pub open spec fn ceiling(value: real) -> int {
    -((-value).floor())
}

/// Line `line` of a family with direction `direction` and offset `offset`
/// is where the inner product with the direction is `line - offset`.
pub open spec fn on_line(point: Vector, direction: Vector, line: int, offset: real) -> bool {
    direction.dot(point) == line as real - offset
}

/// The strip of a family in which a point lies: the number of the first
/// line of the family that the point has not passed.
pub open spec fn strip_index(point: Vector, direction: Vector, offset: real) -> int {
    ceiling(direction.dot(point) + offset)
}

/// Whether `point` is what Cramer's rule gives for the two equations
/// `u . p = bu` and `v . p = bv`: each coordinate, times the determinant of
/// `u` and `v`, is the numerator of the rule.
pub open spec fn by_cramer(point: Vector, u: Vector, v: Vector, bu: real, bv: real) -> bool {
    &&& point.x * u.cross(v) == bu * v.y - bv * u.y
    &&& point.y * u.cross(v) == bv * u.x - bu * v.x
}

/// Whether `point` is what Cramer's rule gives for the two lines of `cell`.
pub open spec fn is_cell_point(
    point: Vector,
    cell: Cell,
    directions: Seq<Vector>,
    offsets: Seq<real>,
) -> bool {
    by_cramer(
        point,
        directions[cell.r as int],
        directions[cell.s as int],
        cell.kr as real - offsets[cell.r as int],
        cell.ks as real - offsets[cell.s as int],
    )
}

/// The base index vector of a point: its strip in every family.
pub open spec fn strips_at(point: Vector, directions: Seq<Vector>, offsets: Seq<real>) -> Seq<
    int,
> {
    Seq::new(directions.len(), |i: int| strip_index(point, directions[i], offsets[i]))
}

/// What Cramer's rule gives lies on both lines, if the two directions are
/// not parallel.
pub proof fn lemma_cramer_solves(point: Vector, u: Vector, v: Vector, bu: real, bv: real)
    requires
        u.cross(v) != 0real,
        by_cramer(point, u, v, bu, bv),
    ensures
        u.dot(point) == bu,
        v.dot(point) == bv,
{
    lemma_cramer(u.x, u.y, v.x, v.y, bu, bv, point.x, point.y, u.cross(v));
}

/// A point on both lines is what Cramer's rule gives. With the lemma
/// before, two lines that are not parallel cross in one point only.
pub proof fn lemma_crossing_is_by_cramer(point: Vector, u: Vector, v: Vector)
    ensures
        by_cramer(point, u, v, u.dot(point), v.dot(point)),
{
    lemma_determinant(u.x, u.y, v.x, v.y, point.x, point.y);
}

/// In exact arithmetic the crossing point of a cell has, in the two
/// crossing families, the line indices themselves as strip indices. So
/// writing the line indices into the base index vector, as the rhombus
/// does for corner 0, changes nothing but what rounding got wrong.
pub proof fn lemma_strips_at_cell_point(
    point: Vector,
    cell: Cell,
    directions: Seq<Vector>,
    offsets: Seq<real>,
)
    requires
        cell.r < cell.s < directions.len(),
        offsets.len() == directions.len(),
        directions[cell.r as int].cross(directions[cell.s as int]) != 0real,
        is_cell_point(point, cell, directions, offsets),
    ensures
        on_line(point, directions[cell.r as int], cell.kr as int, offsets[cell.r as int]),
        on_line(point, directions[cell.s as int], cell.ks as int, offsets[cell.s as int]),
        strips_at(point, directions, offsets)[cell.r as int] == cell.kr,
        strips_at(point, directions, offsets)[cell.s as int] == cell.ks,
        strips_at(point, directions, offsets) == strips_at(point, directions, offsets).update(
            cell.r as int,
            cell.kr as int,
        ).update(cell.s as int, cell.ks as int),
{
    let u = directions[cell.r as int];
    let v = directions[cell.s as int];
    let bu = cell.kr as real - offsets[cell.r as int];
    let bv = cell.ks as real - offsets[cell.s as int];
    lemma_cramer_solves(point, u, v, bu, bv);
    lemma_ceiling_of_integer(cell.kr as int);
    lemma_ceiling_of_integer(cell.ks as int);
    assert(u.dot(point) + offsets[cell.r as int] == cell.kr as real);
    assert(v.dot(point) + offsets[cell.s as int] == cell.ks as real);
    let strips = strips_at(point, directions, offsets);
    assert(strips =~= strips.update(cell.r as int, cell.kr as int).update(
        cell.s as int,
        cell.ks as int,
    ));
}

/// A base index vector that is exact, entry for entry, is itself corner 0
/// of the rhombus: the two entries that the rhombus writes are already
/// there.
pub proof fn lemma_exact_base_is_first_corner(
    point: Vector,
    cell: Cell,
    directions: Seq<Vector>,
    offsets: Seq<real>,
    base: Seq<i64>,
)
    requires
        cell.r < cell.s < directions.len(),
        offsets.len() == directions.len(),
        base.len() == directions.len(),
        directions[cell.r as int].cross(directions[cell.s as int]) != 0real,
        is_cell_point(point, cell, directions, offsets),
        forall|i: int|
            0 <= i < base.len() ==> #[trigger] base[i] == strips_at(point, directions, offsets)[i],
    ensures
        corner_of(cell, base, 0) == base,
{
    lemma_strips_at_cell_point(point, cell, directions, offsets);
    assert(base[cell.r as int] == strips_at(point, directions, offsets)[cell.r as int]);
    assert(base[cell.s as int] == strips_at(point, directions, offsets)[cell.s as int]);
    assert(corner_of(cell, base, 0) =~= base);
}

/// Rounding an integer up leaves it as it is.
pub proof fn lemma_ceiling_of_integer(k: int)
    ensures
        ceiling(k as real) == k,
{
    assert(-(k as real) == (-k) as real);
    assert(((-k) as real).floor() == -k);
}

} // verus!
