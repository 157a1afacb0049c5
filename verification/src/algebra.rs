//! A few identities of real arithmetic that the solver needs to be shown.

use vstd::prelude::*;

verus! {

/// Equal products by the same factor, not zero, come from equal numbers.
pub proof fn lemma_cancel(a: real, b: real, d: real)
    requires
        a * d == b * d,
        d != 0real,
    ensures
        a == b,
{
    assert(a == b) by (nonlinear_arith)
        requires
            a * d == b * d,
            d != 0real,
    ;
}

/// The numerators of Cramer's rule, put back into the two equations.
pub proof fn lemma_numerators(ux: real, uy: real, vx: real, vy: real, bu: real, bv: real)
    by (nonlinear_arith)
    ensures
        ux * (bu * vy - bv * uy) + uy * (bv * ux - bu * vx) == bu * (ux * vy - uy * vx),
        vx * (bu * vy - bv * uy) + vy * (bv * ux - bu * vx) == bv * (ux * vy - uy * vx),
{
}

/// The numerators of Cramer's rule for a point on both lines.
pub proof fn lemma_determinant(ux: real, uy: real, vx: real, vy: real, px: real, py: real)
    by (nonlinear_arith)
    ensures
        px * (ux * vy - uy * vx) == (ux * px + uy * py) * vy - (vx * px + vy * py) * uy,
        py * (ux * vy - uy * vx) == (vx * px + vy * py) * ux - (ux * px + uy * py) * vx,
{
}

/// A sum of two products, times a factor.
pub proof fn lemma_spread(a: real, p: real, b: real, q: real, d: real)
    by (nonlinear_arith)
    ensures
        (a * p + b * q) * d == a * (p * d) + b * (q * d),
{
}

/// Cramer's rule with the division cleared: if each coordinate times the
/// determinant is the rule's numerator, the point solves both equations.
pub proof fn lemma_cramer(
    ux: real,
    uy: real,
    vx: real,
    vy: real,
    bu: real,
    bv: real,
    px: real,
    py: real,
    det: real,
)
    requires
        det == ux * vy - uy * vx,
        det != 0real,
        px * det == bu * vy - bv * uy,
        py * det == bv * ux - bu * vx,
    ensures
        ux * px + uy * py == bu,
        vx * px + vy * py == bv,
{
    lemma_spread(ux, px, uy, py, det);
    lemma_spread(vx, px, vy, py, det);
    lemma_numerators(ux, uy, vx, vy, bu, bv);
    lemma_cancel(ux * px + uy * py, bu, det);
    lemma_cancel(vx * px + vy * py, bv, det);
}

} // verus!
