//! One edge and one point: what the edge adds to the winding number round
//! the point, and what the three edges of a triangle add together.
//!
//! Everything here is stated for points given by integer coordinates of any
//! size, so that it can be used for the vertices of a polygon magnified by
//! any factor.

use vstd::prelude::*;
use crate::geometry::{cross, lemma_cross_expands};

verus! {

/// What the edge from `a` to `b` adds to the winding number round `q`, all
/// three given by their coordinates: 1 where the edge passes the height of
/// `q` upwards with `q` on its left, -1 where it passes downwards with `q` on
/// its right. An edge counts its lower end and not its upper one.
pub open spec fn crossing(ax: int, ay: int, bx: int, by: int, qx: int, qy: int) -> int {
    if ay <= qy < by && cross(ax, ay, bx, by, qx, qy) > 0 {
        1
    } else if by <= qy < ay && cross(ax, ay, bx, by, qx, qy) < 0 {
        -1
    } else {
        0
    }
}

/// The winding number of the triangle `a`, `b`, `c` round `q`.
pub open spec fn triangle_crossings(
    ax: int,
    ay: int,
    bx: int,
    by: int,
    cx: int,
    cy: int,
    qx: int,
    qy: int,
) -> int {
    crossing(ax, ay, bx, by, qx, qy) + crossing(bx, by, cx, cy, qx, qy) + crossing(
        cx,
        cy,
        ax,
        ay,
        qx,
        qy,
    )
}

/// The sign of a product, from the signs of its factors.
pub proof fn lemma_sign_of_product(u: int, v: int)
    by (nonlinear_arith)
    ensures
        u > 0 && v > 0 ==> u * v > 0,
        u < 0 && v < 0 ==> u * v > 0,
        u > 0 && v < 0 ==> u * v < 0,
        u < 0 && v > 0 ==> u * v < 0,
        u == 0 || v == 0 ==> u * v == 0,
{
}

/// Three factors can be multiplied in any order.
proof fn lemma_three_factors(p: int, q: int, r: int)
    by (nonlinear_arith)
    ensures
        p * (q * r) == r * (q * p),
        p * (q * r) == q * (r * p),
        p * (q * r) == q * (p * r),
        (p * q) * r == (r * p) * q,
        (p * q) * r == (q * r) * p,
{
}

/// A factor times a difference, multiplied out.
pub proof fn lemma_times_difference(d: int, u: int, v: int)
    by (nonlinear_arith)
    ensures
        d * u - d * v == d * (u - v),
        u * d - v * d == (u - v) * d,
{
}

/// Seen from one corner, with `u` and `v` the two edges at it and `w` the
/// way to the point: the areas that the point spans with the two edges,
/// weighted with the height of the other edge's end, give the whole area
/// weighted with the height of the point.
proof fn lemma_lever(ux: int, uy: int, vx: int, vy: int, wx: int, wy: int)
    ensures
        vy * (ux * wy - uy * wx) + uy * (wx * vy - wy * vx) == wy * (ux * vy - uy * vx),
{
    lemma_times_difference(vy, ux * wy, uy * wx);
    lemma_times_difference(uy, wx * vy, wy * vx);
    lemma_times_difference(wy, ux * vy, uy * vx);
    lemma_three_factors(vy, ux, wy);
    lemma_three_factors(vy, uy, wx);
    lemma_three_factors(uy, wy, vx);
}

/// Seen from the point, the areas that it spans with the three edges,
/// weighted with the heights of the opposite corners, cancel.
proof fn lemma_balance(ax: int, ay: int, bx: int, by: int, cx: int, cy: int)
    ensures
        (bx * cy - by * cx) * ay + (cx * ay - cy * ax) * by + (ax * by - ay * bx) * cy == 0,
{
    lemma_times_difference(ay, bx * cy, by * cx);
    lemma_times_difference(by, cx * ay, cy * ax);
    lemma_times_difference(cy, ax * by, ay * bx);
    lemma_three_factors(bx, cy, ay);
    lemma_three_factors(by, cx, ay);
    lemma_three_factors(cy, ax, by);
}

/// Turning an edge round negates what it adds.
pub proof fn lemma_crossing_turns(ax: int, ay: int, bx: int, by: int, qx: int, qy: int)
    ensures
        crossing(bx, by, ax, ay, qx, qy) == -crossing(ax, ay, bx, by, qx, qy),
{
    lemma_cross_expands(ax, ay, bx, by, qx, qy);
    lemma_cross_expands(bx, by, ax, ay, qx, qy);
}

/// The areas that `q` spans with the three edges, each weighted with the
/// height of the opposite corner above `q`, cancel: `q` is the centre of
/// gravity of the corners under these weights.
proof fn lemma_heights_balance(
    ax: int,
    ay: int,
    bx: int,
    by: int,
    cx: int,
    cy: int,
    qx: int,
    qy: int,
)
    ensures
        cross(bx, by, cx, cy, qx, qy) * (ay - qy) + cross(cx, cy, ax, ay, qx, qy) * (by - qy)
            + cross(ax, ay, bx, by, qx, qy) * (cy - qy) == 0,
{
    let (px, py) = (ax - qx, ay - qy);
    let (rx, ry) = (bx - qx, by - qy);
    let (tx, ty) = (cx - qx, cy - qy);
    lemma_cross_expands(bx, by, cx, cy, qx, qy);
    lemma_cross_expands(qx, qy, bx, by, cx, cy);
    lemma_cross_expands(cx, cy, ax, ay, qx, qy);
    lemma_cross_expands(qx, qy, cx, cy, ax, ay);
    lemma_cross_expands(ax, ay, bx, by, qx, qy);
    lemma_cross_expands(qx, qy, ax, ay, bx, by);
    assert(cross(bx, by, cx, cy, qx, qy) == rx * ty - ry * tx);
    assert(cross(cx, cy, ax, ay, qx, qy) == tx * py - ty * px);
    assert(cross(ax, ay, bx, by, qx, qy) == px * ry - py * rx);
    lemma_balance(px, py, rx, ry, tx, ty);
}

/// One corner of a convex triangle on one side of the height of `q`, the
/// two others on the other side: the two edges at that corner pass the
/// height of `q`, and `q` cannot be outside the triangle at both of them.
proof fn lemma_corner_apart(
    ax: int,
    ay: int,
    bx: int,
    by: int,
    cx: int,
    cy: int,
    qx: int,
    qy: int,
)
    requires
        cross(ax, ay, bx, by, cx, cy) < 0,
    ensures
        ay <= qy < by && qy < cy ==> !(cross(ax, ay, bx, by, qx, qy) > 0 && cross(
            cx,
            cy,
            ax,
            ay,
            qx,
            qy,
        ) >= 0),
        by <= qy < ay && cy <= qy ==> !(cross(cx, cy, ax, ay, qx, qy) > 0 && cross(
            ax,
            ay,
            bx,
            by,
            qx,
            qy,
        ) >= 0),
{
    let (ux, uy) = (bx - ax, by - ay);
    let (vx, vy) = (cx - ax, cy - ay);
    let (wx, wy) = (qx - ax, qy - ay);
    let at_b = cross(ax, ay, bx, by, qx, qy);
    let at_c = cross(cx, cy, ax, ay, qx, qy);
    let whole = cross(ax, ay, bx, by, cx, cy);
    lemma_cross_expands(cx, cy, ax, ay, qx, qy);
    lemma_cross_expands(ax, ay, qx, qy, cx, cy);
    assert(at_c == wx * vy - wy * vx);
    assert(at_b == ux * wy - uy * wx);
    assert(whole == ux * vy - uy * vx);
    lemma_lever(ux, uy, vx, vy, wx, wy);
    assert(vy * at_b + uy * at_c == wy * whole);
    lemma_sign_of_product(vy, at_b);
    lemma_sign_of_product(uy, at_c);
    lemma_sign_of_product(wy, whole);
}

/// The three corners of a triangle with an area do not all lie at one
/// height.
proof fn lemma_flat_triangle_has_no_area(ax: int, ay: int, bx: int, by: int, cx: int, cy: int)
    requires
        ay == by,
        by == cy,
    ensures
        cross(ax, ay, bx, by, cx, cy) == 0,
{
    lemma_sign_of_product(bx - ax, cy - ay);
    lemma_sign_of_product(by - ay, cx - ax);
}

/// How a triangle that turns the convex way winds round a point: never the
/// other way and never more than once; once round every point strictly
/// inside it; and not at all round a point outside it.
pub proof fn lemma_convex_triangle_winds_once(
    ax: int,
    ay: int,
    bx: int,
    by: int,
    cx: int,
    cy: int,
    qx: int,
    qy: int,
)
    requires
        cross(ax, ay, bx, by, cx, cy) < 0,
    ensures
        -1 <= triangle_crossings(ax, ay, bx, by, cx, cy, qx, qy) <= 0,
        cross(ax, ay, bx, by, qx, qy) < 0 && cross(bx, by, cx, cy, qx, qy) < 0 && cross(
            cx,
            cy,
            ax,
            ay,
            qx,
            qy,
        ) < 0 ==> triangle_crossings(ax, ay, bx, by, cx, cy, qx, qy) == -1,
        triangle_crossings(ax, ay, bx, by, cx, cy, qx, qy) != 0 ==> cross(ax, ay, bx, by, qx, qy)
            <= 0 && cross(bx, by, cx, cy, qx, qy) <= 0 && cross(cx, cy, ax, ay, qx, qy) <= 0,
        !(cross(ax, ay, bx, by, qx, qy) >= 0 && cross(bx, by, cx, cy, qx, qy) >= 0 && cross(
            cx,
            cy,
            ax,
            ay,
            qx,
            qy,
        ) >= 0),
{
    lemma_cross_expands(ax, ay, bx, by, cx, cy);
    lemma_cross_expands(bx, by, cx, cy, ax, ay);
    lemma_cross_expands(cx, cy, ax, ay, bx, by);
    lemma_cross_expands(ax, ay, bx, by, qx, qy);
    lemma_cross_expands(bx, by, cx, cy, qx, qy);
    lemma_cross_expands(cx, cy, ax, ay, qx, qy);
    lemma_corner_apart(ax, ay, bx, by, cx, cy, qx, qy);
    lemma_corner_apart(bx, by, cx, cy, ax, ay, qx, qy);
    lemma_corner_apart(cx, cy, ax, ay, bx, by, qx, qy);
    lemma_heights_balance(ax, ay, bx, by, cx, cy, qx, qy);
    lemma_sign_of_product(cross(bx, by, cx, cy, qx, qy), ay - qy);
    lemma_sign_of_product(cross(cx, cy, ax, ay, qx, qy), by - qy);
    lemma_sign_of_product(cross(ax, ay, bx, by, qx, qy), cy - qy);
    if ay == by && by == cy {
        lemma_flat_triangle_has_no_area(ax, ay, bx, by, cx, cy);
    }
}

} // verus!
