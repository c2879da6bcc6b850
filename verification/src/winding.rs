//! Winding numbers, and what they show of a triangulation: that its
//! triangles stay inside the polygon, cover it, and do not overlap.
//!
//! The winding number of a boundary round a point counts how often the
//! boundary goes round it. Cutting an ear splits the winding number into
//! that of the ear and that of the rest, so the winding number of a polygon
//! is the sum of the winding numbers of its triangles. Each triangle winds
//! once round every point inside it, in the same direction for all of them,
//! and not at all round a point outside it. So a point inside a triangle is
//! a point that the polygon winds round; a point that the polygon winds
//! round is in a triangle; and two triangles over one point make the polygon
//! wind twice round it.

use vstd::prelude::*;
use crate::geometry::{
    Triangle, Vertex, cross, in_triangle, lemma_cross_expands, lemma_weights_are_orientations,
    orient,
};
use crate::clipping::{
    corner, first_ear, has_ear, leftover_of, lemma_cut_triangles_are_convex, triangles_of,
};
use crate::edges::{chain_sum, edge_sum, lemma_edge_sum_without_vertex};
use crate::crossing::{
    crossing, lemma_convex_triangle_winds_once, lemma_crossing_turns, lemma_sign_of_product,
    lemma_times_difference, triangle_crossings,
};

verus! {

/// A point of the plane with the rational coordinates `x / den` and
/// `y / den`, for a positive `den`.
pub struct Sample {
    pub x: int,
    pub y: int,
    pub den: int,
}

/// The vertex `p` as a sample.
pub open spec fn sample_at(p: Vertex) -> Sample {
    Sample { x: p.x as int, y: p.y as int, den: 1 }
}

/// On which side of the line from `a` to `b` the sample lies: the sign is
/// that of the cross product of `b - a` and `s - a`.
pub open spec fn side(a: Vertex, b: Vertex, s: Sample) -> int {
    cross(s.den * a.x, s.den * a.y, s.den * b.x, s.den * b.y, s.x, s.y)
}

/// What the edge from `a` to `b` adds to the winding number round `s`.
pub open spec fn edge_crossing(a: Vertex, b: Vertex, s: Sample) -> int {
    crossing(s.den * a.x, s.den * a.y, s.den * b.x, s.den * b.y, s.x, s.y)
}

/// The crossings round `s` as a function of the edge.
pub open spec fn crossings_round(s: Sample) -> spec_fn(Vertex, Vertex) -> int {
    |a: Vertex, b: Vertex| edge_crossing(a, b, s)
}

/// The winding number of the closed boundary `poly` round `s`: how often
/// the boundary goes round the sample, counted negative in the direction
/// of the library's winding. It is the number of edges that pass the height
/// of `s` upwards on its right, less the number of those that pass it
/// downwards on its right.
pub open spec fn winding(poly: Seq<Vertex>, s: Sample) -> int {
    edge_sum(poly, crossings_round(s))
}

impl Triangle {
    /// The winding number of the triangle's boundary round `s`.
    pub open spec fn winding(self, s: Sample) -> int {
        triangle_crossings(
            s.den * self.a.x,
            s.den * self.a.y,
            s.den * self.b.x,
            s.den * self.b.y,
            s.den * self.c.x,
            s.den * self.c.y,
            s.x,
            s.y,
        )
    }

    /// The sample lies inside the triangle and not on its boundary: it is
    /// strictly on the same side of all three edges.
    pub open spec fn strictly_holds(self, s: Sample) -> bool {
        ||| side(self.a, self.b, s) < 0 && side(self.b, self.c, s) < 0 && side(self.c, self.a, s)
            < 0
        ||| side(self.a, self.b, s) > 0 && side(self.b, self.c, s) > 0 && side(self.c, self.a, s)
            > 0
    }

    /// The sample lies in the triangle or on its boundary: it is on the same
    /// side of all three edges, or on them.
    pub open spec fn holds(self, s: Sample) -> bool {
        ||| side(self.a, self.b, s) <= 0 && side(self.b, self.c, s) <= 0 && side(self.c, self.a, s)
            <= 0
        ||| side(self.a, self.b, s) >= 0 && side(self.b, self.c, s) >= 0 && side(self.c, self.a, s)
            >= 0
    }
}

/// No point lies strictly inside both triangles. Only points with rational
/// coordinates are asked, which is enough: where two triangles share a point
/// strictly inside both, they share one with rational coordinates.
pub open spec fn interiors_disjoint(t: Triangle, u: Triangle) -> bool {
    forall|s: Sample| s.den > 0 ==> !(#[trigger] t.strictly_holds(s) && u.strictly_holds(s))
}

/// The boundary goes at most once round any point, in the direction that
/// the library expects. This is what the proof that triangles do not
/// overlap asks of the polygon. A polygon that does not cross itself and is
/// wound the library's way is known to be such a boundary; that fact, the
/// Jordan curve theorem for polygons, is not proved here.
pub open spec fn winds_at_most_once(poly: Seq<Vertex>) -> bool {
    forall|s: Sample| s.den > 0 ==> #[trigger] winding(poly, s) >= -1
}

/// No triangle of `ts` reaches outside the polygon: every point strictly
/// inside one of them is a point that `poly` winds round.
pub open spec fn triangles_stay_inside(ts: Seq<Triangle>, poly: Seq<Vertex>) -> bool {
    forall|k: int, s: Sample|
        0 <= k < ts.len() && s.den > 0 && #[trigger] ts[k].strictly_holds(s) ==> winding(poly, s)
            <= -1
}

/// The triangles of `ts` cover the polygon: every point that `poly` winds
/// round lies in one of them, or on its boundary.
pub open spec fn triangles_cover(ts: Seq<Triangle>, poly: Seq<Vertex>) -> bool {
    forall|s: Sample|
        s.den > 0 && #[trigger] winding(poly, s) != 0 ==> exists|k: int|
            0 <= k < ts.len() && #[trigger] ts[k].holds(s)
}

/// No two triangles of `ts` overlap.
pub open spec fn triangles_do_not_overlap(ts: Seq<Triangle>) -> bool {
    forall|i: int, j: int|
        0 <= i < j < ts.len() ==> interiors_disjoint(#[trigger] ts[i], #[trigger] ts[j])
}

/// The winding numbers of the triangles of `ts` round `s`, added up.
pub open spec fn total_winding(ts: Seq<Triangle>, s: Sample) -> int
    decreases ts.len(),
{
    if ts.len() == 0 {
        0
    } else {
        ts[0].winding(s) + total_winding(ts.drop_first(), s)
    }
}

/// For a vertex, the membership test of the library and the sides of the
/// three edges say the same: the vertex is in a triangle with an area
/// exactly when it is on the inner side of each edge, or on the edge.
pub proof fn lemma_in_triangle_is_holding(p: Vertex, t: Triangle)
    ensures
        in_triangle(p, t.a, t.b, t.c) <==> orient(t.a, t.b, t.c) != 0 && t.holds(sample_at(p)),
{
    lemma_weights_are_orientations(p, t.a, t.b, t.c);
    lemma_cross_expands(
        t.a.x as int,
        t.a.y as int,
        t.b.x as int,
        t.b.y as int,
        t.c.x as int,
        t.c.y as int,
    );
    lemma_cross_expands(
        t.a.x as int,
        t.a.y as int,
        t.b.x as int,
        t.b.y as int,
        p.x as int,
        p.y as int,
    );
    lemma_cross_expands(
        t.b.x as int,
        t.b.y as int,
        t.c.x as int,
        t.c.y as int,
        p.x as int,
        p.y as int,
    );
    lemma_cross_expands(
        t.c.x as int,
        t.c.y as int,
        t.a.x as int,
        t.a.y as int,
        p.x as int,
        p.y as int,
    );
    assert(side(t.a, t.b, sample_at(p)) == orient(t.a, t.b, p));
    assert(side(t.b, t.c, sample_at(p)) == orient(t.b, t.c, p));
    assert(side(t.c, t.a, sample_at(p)) == orient(t.c, t.a, p));
}

/// A common factor of two factors can be taken out of their product.
proof fn lemma_scaled_product(d: int, u: int, v: int)
    ensures
        (d * u) * (d * v) == (d * d) * (u * v),
{
    vstd::arithmetic::mul::lemma_mul_is_associative(d, u, d * v);
    vstd::arithmetic::mul::lemma_mul_is_associative(u, d, v);
    vstd::arithmetic::mul::lemma_mul_is_commutative(u, d);
    vstd::arithmetic::mul::lemma_mul_is_associative(d, u, v);
    vstd::arithmetic::mul::lemma_mul_is_associative(d, d, u * v);
}

/// Magnifying two vectors by `d` magnifies their cross product by `d * d`.
proof fn lemma_scaled_cross(d: int, ux: int, uy: int, vx: int, vy: int)
    ensures
        (d * ux) * (d * vy) - (d * uy) * (d * vx) == (d * d) * (ux * vy - uy * vx),
{
    lemma_scaled_product(d, ux, vy);
    lemma_scaled_product(d, uy, vx);
    lemma_times_difference(d * d, ux * vy, uy * vx);
}

/// Magnifying a triangle keeps the way it turns.
proof fn lemma_scaling_keeps_the_turn(t: Triangle, d: int)
    requires
        t.turns_convex(),
        d > 0,
    ensures
        cross(d * t.a.x, d * t.a.y, d * t.b.x, d * t.b.y, d * t.c.x, d * t.c.y) < 0,
{
    let (ax, ay) = (t.a.x as int, t.a.y as int);
    let (bx, by) = (t.b.x as int, t.b.y as int);
    let (cx, cy) = (t.c.x as int, t.c.y as int);
    lemma_times_difference(d, bx, ax);
    lemma_times_difference(d, by, ay);
    lemma_times_difference(d, cx, ax);
    lemma_times_difference(d, cy, ay);
    lemma_scaled_cross(d, bx - ax, by - ay, cx - ax, cy - ay);
    lemma_sign_of_product(d, d);
    lemma_sign_of_product(d * d, cross(ax, ay, bx, by, cx, cy));
}

/// How a triangle that turns the convex way winds round a point: never the
/// other way and never more than once; once round every point strictly
/// inside it; and not at all round a point outside it.
pub proof fn lemma_triangle_winding(t: Triangle, s: Sample)
    requires
        t.turns_convex(),
        s.den > 0,
    ensures
        -1 <= t.winding(s) <= 0,
        t.strictly_holds(s) ==> t.winding(s) == -1,
        t.winding(s) != 0 ==> t.holds(s),
{
    let d = s.den;
    lemma_scaling_keeps_the_turn(t, d);
    lemma_convex_triangle_winds_once(
        d * t.a.x,
        d * t.a.y,
        d * t.b.x,
        d * t.b.y,
        d * t.c.x,
        d * t.c.y,
        s.x,
        s.y,
    );
}

/// A boundary of fewer than three vertices winds round nothing.
pub proof fn lemma_thin_boundary_winds_nowhere(poly: Seq<Vertex>, s: Sample)
    requires
        poly.len() < 3,
    ensures
        winding(poly, s) == 0,
{
    reveal_with_fuel(chain_sum, 2);
    if poly.len() == 2 {
        assert(poly.last() == poly[1]);
        lemma_crossing_turns(
            s.den * poly[0].x,
            s.den * poly[0].y,
            s.den * poly[1].x,
            s.den * poly[1].y,
            s.x,
            s.y,
        );
    }
    if poly.len() == 1 {
        assert(poly.last() == poly[0]);
    }
}

/// Cutting vertex `i` takes exactly the winding of the corner triangle away
/// from the winding of the boundary.
pub proof fn lemma_winding_without_vertex(poly: Seq<Vertex>, i: int, s: Sample)
    requires
        poly.len() >= 3,
        0 <= i < poly.len(),
    ensures
        winding(poly, s) == winding(poly.remove(i), s) + corner(poly, i).winding(s),
{
    let t = corner(poly, i);
    lemma_edge_sum_without_vertex(poly, crossings_round(s), i);
    lemma_crossing_turns(
        s.den * t.a.x,
        s.den * t.a.y,
        s.den * t.c.x,
        s.den * t.c.y,
        s.x,
        s.y,
    );
}

/// Winding is kept: round every point, the polygon winds as often as its
/// triangles and what is left over do together.
pub proof fn lemma_winding_is_kept(poly: Seq<Vertex>, s: Sample)
    ensures
        winding(poly, s) == total_winding(triangles_of(poly), s) + winding(leftover_of(poly), s),
    decreases poly.len(),
{
    if has_ear(poly) {
        let i = first_ear(poly);
        let rest = poly.remove(i);
        lemma_winding_without_vertex(poly, i, s);
        lemma_winding_is_kept(rest, s);
        assert(triangles_of(poly).drop_first() =~= triangles_of(rest));
    }
}

/// Convex triangles never wind the other way, so every one of them that
/// holds the point takes the total one further down.
proof fn lemma_total_winding_counts(ts: Seq<Triangle>, s: Sample, i: int, j: int)
    requires
        s.den > 0,
        forall|k: int| 0 <= k < ts.len() ==> (#[trigger] ts[k]).turns_convex(),
    ensures
        total_winding(ts, s) <= 0,
        0 <= i < ts.len() && ts[i].strictly_holds(s) ==> total_winding(ts, s) <= -1,
        0 <= i < j < ts.len() && ts[i].strictly_holds(s) && ts[j].strictly_holds(s)
            ==> total_winding(ts, s) <= -2,
    decreases ts.len(),
{
    if ts.len() > 0 {
        let rest = ts.drop_first();
        assert forall|k: int| 0 <= k < rest.len() implies (#[trigger] rest[k]).turns_convex() by {
            assert(rest[k] == ts[k + 1]);
        }
        assert(ts[0].turns_convex());
        lemma_triangle_winding(ts[0], s);
        if 0 < i < ts.len() {
            assert(rest[i - 1] == ts[i]);
        }
        if 0 < j < ts.len() {
            assert(rest[j - 1] == ts[j]);
        }
        if i == 0 {
            lemma_total_winding_counts(rest, s, j - 1, j - 1);
        } else {
            lemma_total_winding_counts(rest, s, i - 1, j - 1);
        }
    }
}

/// Where the windings of some triangles do not add up to nothing, one of
/// the triangles winds round the point.
proof fn lemma_some_triangle_winds(ts: Seq<Triangle>, s: Sample) -> (k: int)
    requires
        total_winding(ts, s) != 0,
    ensures
        0 <= k < ts.len(),
        ts[k].winding(s) != 0,
    decreases ts.len(),
{
    if ts[0].winding(s) != 0 {
        0
    } else {
        let rest = ts.drop_first();
        let k = lemma_some_triangle_winds(rest, s);
        assert(rest[k] == ts[k + 1]);
        k + 1
    }
}

/// The triangles of a complete triangulation stay inside the polygon.
pub proof fn lemma_cut_triangles_stay_inside(poly: Seq<Vertex>)
    requires
        leftover_of(poly).len() < 3,
    ensures
        triangles_stay_inside(triangles_of(poly), poly),
{
    let ts = triangles_of(poly);
    lemma_cut_triangles_are_convex(poly);
    assert forall|k: int, s: Sample|
        0 <= k < ts.len() && s.den > 0 && #[trigger] ts[k].strictly_holds(s) implies winding(
        poly,
        s,
    ) <= -1 by {
        lemma_winding_is_kept(poly, s);
        lemma_thin_boundary_winds_nowhere(leftover_of(poly), s);
        lemma_total_winding_counts(ts, s, k, k);
    }
}

/// The triangles of a complete triangulation cover the polygon.
pub proof fn lemma_cut_triangles_cover(poly: Seq<Vertex>)
    requires
        leftover_of(poly).len() < 3,
    ensures
        triangles_cover(triangles_of(poly), poly),
{
    let ts = triangles_of(poly);
    lemma_cut_triangles_are_convex(poly);
    assert forall|s: Sample| s.den > 0 && #[trigger] winding(poly, s) != 0 implies exists|k: int|
        0 <= k < ts.len() && #[trigger] ts[k].holds(s) by {
        lemma_winding_is_kept(poly, s);
        lemma_thin_boundary_winds_nowhere(leftover_of(poly), s);
        let k = lemma_some_triangle_winds(ts, s);
        assert(ts[k].turns_convex());
        lemma_triangle_winding(ts[k], s);
        assert(ts[k].holds(s));
    }
}

/// The triangles of a complete triangulation do not overlap, if the polygon
/// goes at most once round any point.
pub proof fn lemma_cut_triangles_do_not_overlap(poly: Seq<Vertex>)
    requires
        winds_at_most_once(poly),
        leftover_of(poly).len() < 3,
    ensures
        triangles_do_not_overlap(triangles_of(poly)),
{
    let ts = triangles_of(poly);
    lemma_cut_triangles_are_convex(poly);
    assert forall|i: int, j: int| 0 <= i < j < ts.len() implies interiors_disjoint(
        #[trigger] ts[i],
        #[trigger] ts[j],
    ) by {
        assert forall|s: Sample| s.den > 0 implies !(#[trigger] ts[i].strictly_holds(s)
            && ts[j].strictly_holds(s)) by {
            if ts[i].strictly_holds(s) && ts[j].strictly_holds(s) {
                lemma_winding_is_kept(poly, s);
                lemma_thin_boundary_winds_nowhere(leftover_of(poly), s);
                lemma_total_winding_counts(ts, s, i, j);
                assert(winding(poly, s) >= -1);
            }
        }
    }
}

/// A single triangle that turns the convex way goes at most once round any
/// point.
pub proof fn lemma_convex_triangle_winds_at_most_once(poly: Seq<Vertex>)
    requires
        poly.len() == 3,
        (Triangle { a: poly[0], b: poly[1], c: poly[2] }).turns_convex(),
    ensures
        winds_at_most_once(poly),
{
    let t = Triangle { a: poly[0], b: poly[1], c: poly[2] };
    assert forall|s: Sample| s.den > 0 implies #[trigger] winding(poly, s) >= -1 by {
        lemma_triangle_winding(t, s);
        assert(winding(poly, s) == t.winding(s)) by {
            reveal_with_fuel(chain_sum, 3);
        }
    }
}

} // verus!
