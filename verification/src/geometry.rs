//! Where the corners of a rhombus lie in the plane, in exact arithmetic.
//!
//! Each grid family has a direction in the plane. An index vector stands for
//! the point that is the sum of the directions, each taken as many times as
//! the index vector says. This module states, over the real numbers, what
//! that makes of the four corners of a rhombus: its sides are the directions
//! of the two crossing families, so it is a parallelogram that does not cross
//! itself as soon as those two directions are not parallel.

use vstd::prelude::*;
use crate::cell::Cell;
use crate::rhombus::{corner_of, CORNERS};

verus! {

/// A point of the plane, or the step from one point to another.
pub struct Vector {
    pub x: real,
    pub y: real,
}

impl Vector {
    /// The sum of two steps.
    pub open spec fn plus(self, other: Vector) -> Vector {
        Vector { x: self.x + other.x, y: self.y + other.y }
    }

    /// The step from `other` to `self`.
    pub open spec fn minus(self, other: Vector) -> Vector {
        Vector { x: self.x - other.x, y: self.y - other.y }
    }

    /// This step taken `factor` times.
    pub open spec fn scaled(self, factor: real) -> Vector {
        Vector { x: self.x * factor, y: self.y * factor }
    }

    /// The step back.
    pub open spec fn reversed(self) -> Vector {
        Vector { x: -self.x, y: -self.y }
    }

    /// The determinant of two steps: zero exactly when they are parallel,
    /// and of one sign for a left turn and the other for a right turn.
    pub open spec fn cross(self, other: Vector) -> real {
        self.x * other.y - self.y * other.x
    }

    /// The square of the length.
    pub open spec fn norm_squared(self) -> real {
        self.x * self.x + self.y * self.y
    }

    /// The inner product: how far `other` reaches along this direction,
    /// when this direction has length 1.
    pub open spec fn dot(self, other: Vector) -> real {
        self.x * other.x + self.y * other.y
    }
}

/// The point that an index vector stands for: the sum over the families of
/// the family's direction times the family's index.
pub open spec fn vertex(index: Seq<i64>, directions: Seq<Vector>) -> Vector
    decreases index.len(),
{
    if index.len() == 0 {
        Vector { x: 0real, y: 0real }
    } else {
        vertex(index.drop_last(), directions).plus(
            directions[index.len() - 1].scaled(index.last() as real),
        )
    }
}

/// Corner `corner` of the rhombus dual to `cell`, as a point of the plane.
pub open spec fn corner_point(
    cell: Cell,
    base: Seq<i64>,
    directions: Seq<Vector>,
    corner: int,
) -> Vector {
    vertex(corner_of(cell, base, corner), directions)
}

/// Side `k` of the outline: the step from corner `k` to the next corner
/// round the rhombus.
pub open spec fn side(cell: Cell, base: Seq<i64>, directions: Seq<Vector>, k: int) -> Vector {
    corner_point(cell, base, directions, (k + 1) % 4).minus(
        corner_point(cell, base, directions, k),
    )
}

/// Changing one entry of an index vector moves the point along that
/// family's direction, by as many steps as the entry changed.
pub proof fn lemma_vertex_step(index: Seq<i64>, directions: Seq<Vector>, family: int, entry: i64)
    requires
        0 <= family < index.len(),
    ensures
        vertex(index.update(family, entry), directions) == vertex(index, directions).plus(
            directions[family].scaled((entry - index[family]) as real),
        ),
    decreases index.len(),
{
    let last = index.len() - 1;
    let d = directions[family];
    let a = entry as real;
    let b = index[family] as real;
    if family == last {
        assert(index.update(family, entry).drop_last() =~= index.drop_last());
        assert(((entry - index[family]) as real) == a - b);
        assert(d.x * a == d.x * b + d.x * (a - b)) by (nonlinear_arith);
        assert(d.y * a == d.y * b + d.y * (a - b)) by (nonlinear_arith);
    } else {
        assert(index.update(family, entry).drop_last() =~= index.drop_last().update(
            family,
            entry,
        ));
        lemma_vertex_step(index.drop_last(), directions, family, entry);
    }
}

/// The sides of a rhombus, taken round in corner order, are the direction
/// of family `r`, the direction of family `s`, and the same two reversed.
pub proof fn lemma_rhombus_sides(cell: Cell, base: Seq<i64>, directions: Seq<Vector>)
    requires
        cell.r < cell.s < base.len(),
        directions.len() == base.len(),
    ensures
        side(cell, base, directions, 0) == directions[cell.r as int],
        side(cell, base, directions, 1) == directions[cell.s as int],
        side(cell, base, directions, 2) == directions[cell.r as int].reversed(),
        side(cell, base, directions, 3) == directions[cell.s as int].reversed(),
{
    let r = cell.r as int;
    let s = cell.s as int;
    let c0 = corner_of(cell, base, 0);
    let c1 = corner_of(cell, base, 1);
    let c2 = corner_of(cell, base, 2);
    let c3 = corner_of(cell, base, 3);
    assert(c1 =~= c0.update(r, (c0[r] + 1) as i64));
    assert(c2 =~= c1.update(s, (c1[s] + 1) as i64));
    assert(c3 =~= c2.update(r, (c2[r] - 1) as i64));
    assert(c0 =~= c3.update(s, (c3[s] - 1) as i64));
    lemma_vertex_step(c0, directions, r, (c0[r] + 1) as i64);
    lemma_vertex_step(c1, directions, s, (c1[s] + 1) as i64);
    lemma_vertex_step(c2, directions, r, (c2[r] - 1) as i64);
    lemma_vertex_step(c3, directions, s, (c3[s] - 1) as i64);
    assert((((c0[r] + 1) as i64 - c0[r]) as real) == 1real);
    assert((((c1[s] + 1) as i64 - c1[s]) as real) == 1real);
    assert((((c2[r] - 1) as i64 - c2[r]) as real) == -1real);
    assert((((c3[s] - 1) as i64 - c3[s]) as real) == -1real);
    lemma_scaled_by_unit(directions[r]);
    lemma_scaled_by_unit(directions[s]);
}

/// If the directions of the two crossing families are not parallel, the
/// four corners of the rhombus are four different points, and from each
/// side to the next the outline turns by the same determinant, that of the
/// two directions: it turns the same way at every corner, so it is convex
/// and does not cross itself.
pub proof fn lemma_rhombus_is_simple(cell: Cell, base: Seq<i64>, directions: Seq<Vector>)
    requires
        cell.r < cell.s < base.len(),
        directions.len() == base.len(),
        directions[cell.r as int].cross(directions[cell.s as int]) != 0real,
    ensures
        forall|j: int, k: int|
            0 <= j < k < CORNERS ==> corner_point(cell, base, directions, j) != corner_point(
                cell,
                base,
                directions,
                k,
            ),
        forall|k: int|
            0 <= k < CORNERS ==> (#[trigger] side(cell, base, directions, k)).cross(
                side(cell, base, directions, (k + 1) % 4),
            ) == directions[cell.r as int].cross(directions[cell.s as int]),
{
    let u = directions[cell.r as int];
    let v = directions[cell.s as int];
    lemma_rhombus_sides(cell, base, directions);
    lemma_turns(u, v);
    assert forall|j: int, k: int| 0 <= j < k < CORNERS implies corner_point(
        cell,
        base,
        directions,
        j,
    ) != corner_point(cell, base, directions, k) by {
        if corner_point(cell, base, directions, j) == corner_point(cell, base, directions, k) {
            lemma_parallel_when_sides_cancel(u, v);
        }
    }
}

/// If the directions of the two crossing families have length 1, all four
/// sides of the rhombus have length 1.
pub proof fn lemma_rhombus_sides_equal(cell: Cell, base: Seq<i64>, directions: Seq<Vector>)
    requires
        cell.r < cell.s < base.len(),
        directions.len() == base.len(),
        directions[cell.r as int].norm_squared() == 1real,
        directions[cell.s as int].norm_squared() == 1real,
    ensures
        forall|k: int|
            0 <= k < CORNERS ==> (#[trigger] side(cell, base, directions, k)).norm_squared()
                == 1real,
{
    lemma_rhombus_sides(cell, base, directions);
    lemma_reversed_length(directions[cell.r as int]);
    lemma_reversed_length(directions[cell.s as int]);
}

/// A step and the step back are equally long.
proof fn lemma_reversed_length(d: Vector)
    ensures
        d.reversed().norm_squared() == d.norm_squared(),
{
    assert((-d.x) * (-d.x) + (-d.y) * (-d.y) == d.x * d.x + d.y * d.y) by (nonlinear_arith);
}

/// One step forward is the step itself, one step back is the step reversed.
proof fn lemma_scaled_by_unit(d: Vector)
    ensures
        d.scaled(1real) == d,
        d.scaled(-1real) == d.reversed(),
{
    assert(d.x * 1real == d.x && d.y * 1real == d.y) by (nonlinear_arith);
    assert(d.x * (-1real) == -d.x && d.y * (-1real) == -d.y) by (nonlinear_arith);
}

/// Turning from `u` to `v`, from `v` to `u` reversed, and so on round the
/// parallelogram, is always the same turn.
proof fn lemma_turns(u: Vector, v: Vector)
    ensures
        v.cross(u.reversed()) == u.cross(v),
        u.reversed().cross(v.reversed()) == u.cross(v),
        v.reversed().cross(u) == u.cross(v),
{
    assert(v.x * (-u.y) - v.y * (-u.x) == u.x * v.y - u.y * v.x) by (nonlinear_arith);
    assert((-u.x) * (-v.y) - (-u.y) * (-v.x) == u.x * v.y - u.y * v.x) by (nonlinear_arith);
    assert((-v.x) * u.y - (-v.y) * u.x == u.x * v.y - u.y * v.x) by (nonlinear_arith);
}

/// Two steps of which one, or their sum, or their difference is no step at
/// all are parallel.
proof fn lemma_parallel_when_sides_cancel(u: Vector, v: Vector)
    requires
        ({
            ||| u.x == 0real && u.y == 0real
            ||| v.x == 0real && v.y == 0real
            ||| u.x + v.x == 0real && u.y + v.y == 0real
            ||| u.x - v.x == 0real && u.y - v.y == 0real
        }),
    ensures
        u.cross(v) == 0real,
{
    assert(u.x * v.y - u.y * v.x == 0real) by (nonlinear_arith)
        requires
            ({
                ||| u.x == 0real && u.y == 0real
                ||| v.x == 0real && v.y == 0real
                ||| u.x + v.x == 0real && u.y + v.y == 0real
                ||| u.x - v.x == 0real && u.y - v.y == 0real
            }),
    ;
}

} // verus!
