//! Areas, by the shoelace formula, and the proof that ear clipping keeps
//! them.
//!
//! Areas are kept doubled: with integer vertices twice the area is an
//! integer, the area itself need not be.

use vstd::prelude::*;
use crate::geometry::{Triangle, Vertex, cross, lemma_cross_expands, orient};
use crate::clipping::{
    corner, first_ear, has_ear, leftover_of, lemma_cut_triangles_are_convex, triangles_of,
};
use crate::edges::{chain_sum, edge_sum, lemma_edge_sum_without_vertex};

verus! {

/// What the edge from `a` to `b` adds to twice the signed area.
pub open spec fn shoelace_term(a: Vertex, b: Vertex) -> int {
    a.x * b.y - b.x * a.y
}

/// The shoelace term as a function of the edge.
pub open spec fn shoelace() -> spec_fn(Vertex, Vertex) -> int {
    |a: Vertex, b: Vertex| shoelace_term(a, b)
}

/// Twice the signed area that the closed boundary `poly` encloses, by the
/// shoelace formula. With the winding that the library expects it is
/// negative.
pub open spec fn twice_signed_area(poly: Seq<Vertex>) -> int {
    edge_sum(poly, shoelace())
}

/// Twice the area that the closed boundary `poly` encloses.
pub open spec fn twice_area(poly: Seq<Vertex>) -> nat {
    vstd::math::abs(twice_signed_area(poly))
}

impl Triangle {
    /// Twice the signed area of the triangle.
    pub open spec fn twice_signed_area(self) -> int {
        orient(self.a, self.b, self.c)
    }

    /// Twice the area of the triangle.
    pub open spec fn twice_area(self) -> nat {
        vstd::math::abs(orient(self.a, self.b, self.c))
    }
}

/// Twice the signed areas of the triangles of `ts`, added up.
pub open spec fn total_twice_signed_area(ts: Seq<Triangle>) -> int
    decreases ts.len(),
{
    if ts.len() == 0 {
        0
    } else {
        ts[0].twice_signed_area() + total_twice_signed_area(ts.drop_first())
    }
}

/// Twice the areas of the triangles of `ts`, added up.
pub open spec fn total_twice_area(ts: Seq<Triangle>) -> nat
    decreases ts.len(),
{
    if ts.len() == 0 {
        0
    } else {
        ts[0].twice_area() + total_twice_area(ts.drop_first())
    }
}

/// A boundary of fewer than three vertices encloses nothing.
pub proof fn lemma_thin_boundary_has_no_area(poly: Seq<Vertex>)
    requires
        poly.len() < 3,
    ensures
        twice_signed_area(poly) == 0,
{
    reveal_with_fuel(chain_sum, 2);
    if poly.len() == 2 {
        assert(poly.last() == poly[1]);
    }
    if poly.len() == 1 {
        assert(poly.last() == poly[0]);
    }
}

/// Cutting vertex `i` takes exactly the corner triangle away from the
/// signed area.
pub proof fn lemma_area_without_vertex(poly: Seq<Vertex>, i: int)
    requires
        poly.len() >= 3,
        0 <= i < poly.len(),
    ensures
        twice_signed_area(poly) == twice_signed_area(poly.remove(i)) + corner(
            poly,
            i,
        ).twice_signed_area(),
{
    let t = corner(poly, i);
    lemma_edge_sum_without_vertex(poly, shoelace(), i);
    lemma_cross_expands(
        t.a.x as int,
        t.a.y as int,
        t.b.x as int,
        t.b.y as int,
        t.c.x as int,
        t.c.y as int,
    );
}

/// Area is kept, with signs: the signed area of the polygon is the sum of
/// the signed areas of the triangles that were cut and of what is left over.
pub proof fn lemma_signed_area_is_kept(poly: Seq<Vertex>)
    ensures
        twice_signed_area(poly) == total_twice_signed_area(triangles_of(poly)) + twice_signed_area(
            leftover_of(poly),
        ),
    decreases poly.len(),
{
    if has_ear(poly) {
        let i = first_ear(poly);
        let rest = poly.remove(i);
        lemma_area_without_vertex(poly, i);
        lemma_signed_area_is_kept(rest);
        assert(triangles_of(poly).drop_first() =~= triangles_of(rest));
    }
}

/// Triangles that all turn the convex way add their areas up without
/// cancelling: the sum of the areas is the negated sum of the signed areas.
pub proof fn lemma_convex_areas_add_up(ts: Seq<Triangle>)
    requires
        forall|k: int| 0 <= k < ts.len() ==> (#[trigger] ts[k]).twice_signed_area() < 0,
    ensures
        total_twice_area(ts) == -total_twice_signed_area(ts),
    decreases ts.len(),
{
    if ts.len() > 0 {
        let rest = ts.drop_first();
        assert forall|k: int| 0 <= k < rest.len() implies (#[trigger] rest[k]).twice_signed_area()
            < 0 by {
            assert(rest[k] == ts[k + 1]);
        }
        lemma_convex_areas_add_up(rest);
        assert(ts[0].twice_signed_area() < 0);
    }
}

/// Area is kept: the triangles of a complete triangulation have, together,
/// the area of the polygon.
pub proof fn lemma_area_is_kept(poly: Seq<Vertex>)
    requires
        leftover_of(poly).len() < 3,
    ensures
        total_twice_area(triangles_of(poly)) == twice_area(poly),
{
    lemma_signed_area_is_kept(poly);
    lemma_thin_boundary_has_no_area(leftover_of(poly));
    lemma_cut_triangles_are_convex(poly);
    lemma_convex_areas_add_up(triangles_of(poly));
}

} // verus!
