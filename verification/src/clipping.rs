//! Ear clipping: what an ear is, which one is cut next, and the loop that
//! cuts them.

use vstd::prelude::*;
use crate::geometry::{
    Triangle, Vertex, convex_turn, in_triangle, is_convex, lemma_cross_expands,
    lemma_orient_rotates, orient, point_in_triangle,
};
use crate::area::{
    lemma_area_is_kept, lemma_signed_area_is_kept, total_twice_area, total_twice_signed_area,
    twice_area, twice_signed_area,
};
use crate::winding::{
    lemma_cut_triangles_cover, lemma_cut_triangles_do_not_overlap, lemma_cut_triangles_stay_inside,
    triangles_cover, triangles_do_not_overlap, triangles_stay_inside, winds_at_most_once,
};

verus! {

/// Index of the vertex before `i` on a closed boundary of `n` vertices.
pub open spec fn prev_index(n: int, i: int) -> int {
    if i == 0 {
        n - 1
    } else {
        i - 1
    }
}

/// Index of the vertex after `i` on a closed boundary of `n` vertices.
pub open spec fn next_index(n: int, i: int) -> int {
    if i + 1 == n {
        0
    } else {
        i + 1
    }
}

/// The triangle that vertex `i` forms with its two neighbours, in boundary
/// order: the neighbour before, the vertex, the neighbour after.
pub open spec fn corner(poly: Seq<Vertex>, i: int) -> Triangle {
    Triangle {
        a: poly[prev_index(poly.len() as int, i)],
        b: poly[i],
        c: poly[next_index(poly.len() as int, i)],
    }
}

/// Vertex `j` does not stand in the way of cutting the corner at `i`: it is
/// one of the corner's own three vertices, or it lies outside the closed
/// corner triangle.
pub open spec fn keeps_clear(poly: Seq<Vertex>, i: int, j: int) -> bool {
    let n = poly.len() as int;
    let t = corner(poly, i);
    j == i || j == prev_index(n, i) || j == next_index(n, i) || !in_triangle(poly[j], t.a, t.b, t.c)
}

/// Vertex `i` is an ear: the boundary turns the convex way there, and no
/// other vertex lies in or on the corner triangle.
pub open spec fn ear_at(poly: Seq<Vertex>, i: int) -> bool {
    let t = corner(poly, i);
    &&& poly.len() >= 3
    &&& 0 <= i < poly.len()
    &&& convex_turn(t.a, t.b, t.c)
    &&& forall|j: int| 0 <= j < poly.len() ==> #[trigger] keeps_clear(poly, i, j)
}

/// Vertex `i` is the ear with the smallest index.
pub open spec fn is_first_ear(poly: Seq<Vertex>, i: int) -> bool {
    ear_at(poly, i) && forall|k: int| 0 <= k < i ==> !ear_at(poly, k)
}

/// The boundary has an ear.
pub open spec fn has_ear(poly: Seq<Vertex>) -> bool {
    exists|i: int| is_first_ear(poly, i)
}

/// The smallest index of an ear, where there is one.
pub open spec fn first_ear(poly: Seq<Vertex>) -> int {
    choose|i: int| is_first_ear(poly, i)
}

/// The triangles that ear clipping cuts from `poly`, in the order of cutting:
/// the corner at the first ear, then whatever is cut from the boundary
/// without that vertex. Nothing is cut once no ear is left.
pub open spec fn triangles_of(poly: Seq<Vertex>) -> Seq<Triangle>
    decreases poly.len(),
{
    if has_ear(poly) {
        seq![corner(poly, first_ear(poly))] + triangles_of(poly.remove(first_ear(poly)))
    } else {
        Seq::empty()
    }
}

/// The boundary that is left when no ear can be cut any more.
pub open spec fn leftover_of(poly: Seq<Vertex>) -> Seq<Vertex>
    decreases poly.len(),
{
    if has_ear(poly) {
        leftover_of(poly.remove(first_ear(poly)))
    } else {
        poly
    }
}

/// There is only one first ear.
pub proof fn lemma_first_ear_is_unique(poly: Seq<Vertex>, i: int)
    requires
        is_first_ear(poly, i),
    ensures
        has_ear(poly),
        first_ear(poly) == i,
{
    let k = first_ear(poly);
    assert(is_first_ear(poly, k));
    if k < i {
        assert(!ear_at(poly, k));
    }
    if i < k {
        assert(!ear_at(poly, i));
    }
}

/// How a run of ear clipping ended.
#[derive(Clone, Copy, Debug, PartialEq, Eq, Structural)]
pub enum Outcome {
    /// Every vertex but two was cut off: the polygon is triangulated.
    Complete,
    /// No ear was found while `remaining` vertices, three or more, were
    /// still on the boundary. The triangles cut so far are valid; the rest
    /// of the polygon is not covered.
    Partial { remaining: usize },
    /// The input was no polygon: it had fewer than three different points.
    /// Nothing was cut.
    Degenerate,
}

/// The result of ear clipping.
#[derive(Debug)]
pub struct Triangulation {
    /// The triangles, in the order in which they were cut.
    pub triangles: Vec<Triangle>,
    /// The vertices that were still on the boundary at the end, in boundary
    /// order.
    pub leftover: Vec<Vertex>,
    /// How the run ended.
    pub outcome: Outcome,
}

/// The boundary has three vertices that are three different points.
pub open spec fn three_distinct(poly: Seq<Vertex>) -> bool {
    exists|i: int, j: int, k: int|
        0 <= i < poly.len() && 0 <= j < poly.len() && 0 <= k < poly.len() && #[trigger] poly[i]
            != #[trigger] poly[j] && poly[i] != #[trigger] poly[k] && poly[j] != poly[k]
}

/// How clipping `poly` ends.
pub open spec fn outcome_of(poly: Seq<Vertex>) -> Outcome {
    if !three_distinct(poly) {
        Outcome::Degenerate
    } else if leftover_of(poly).len() < 3 {
        Outcome::Complete
    } else {
        Outcome::Partial { remaining: leftover_of(poly).len() as usize }
    }
}

/// Three points of which two are the same span no area.
pub proof fn lemma_area_needs_three_points(a: Vertex, b: Vertex, c: Vertex)
    requires
        a == b || b == c || a == c,
    ensures
        orient(a, b, c) == 0,
{
    lemma_cross_expands(a.x as int, a.y as int, b.x as int, b.y as int, c.x as int, c.y as int);
}

/// Without three different points there is no ear, so nothing is cut.
pub proof fn lemma_degenerate_gives_nothing(poly: Seq<Vertex>)
    requires
        !three_distinct(poly),
    ensures
        !has_ear(poly),
        triangles_of(poly) == Seq::<Triangle>::empty(),
        leftover_of(poly) == poly,
{
    if has_ear(poly) {
        let i = first_ear(poly);
        let n = poly.len() as int;
        let t = corner(poly, i);
        assert(ear_at(poly, i));
        if t.a == t.b || t.b == t.c || t.a == t.c {
            lemma_area_needs_three_points(t.a, t.b, t.c);
        }
        assert(poly[prev_index(n, i)] != poly[i] && poly[prev_index(n, i)] != poly[next_index(n, i)]
            && poly[i] != poly[next_index(n, i)]);
    }
}

/// Where all vertices lie on one line there is no ear, so nothing is cut.
pub proof fn lemma_collinear_gives_nothing(poly: Seq<Vertex>)
    requires
        forall|i: int, j: int, k: int|
            0 <= i < poly.len() && 0 <= j < poly.len() && 0 <= k < poly.len() ==> orient(
                #[trigger] poly[i],
                #[trigger] poly[j],
                #[trigger] poly[k],
            ) == 0,
    ensures
        triangles_of(poly) == Seq::<Triangle>::empty(),
        leftover_of(poly) == poly,
{
    if has_ear(poly) {
        let i = first_ear(poly);
        let n = poly.len() as int;
        assert(ear_at(poly, i));
        assert(orient(poly[prev_index(n, i)], poly[i], poly[next_index(n, i)]) == 0);
    }
}

impl Triangle {
    /// The triangle turns the convex way at its middle vertex.
    pub open spec fn turns_convex(self) -> bool {
        convex_turn(self.a, self.b, self.c)
    }

    /// All three corners of the triangle are vertices of `poly`.
    pub open spec fn corners_among(self, poly: Seq<Vertex>) -> bool {
        poly.contains(self.a) && poly.contains(self.b) && poly.contains(self.c)
    }
}

/// Every vertex is either cut off, with one triangle for it, or left over;
/// and clipping only stops where no ear is left.
pub proof fn lemma_vertices_are_cut_or_left(poly: Seq<Vertex>)
    ensures
        triangles_of(poly).len() + leftover_of(poly).len() == poly.len(),
        !has_ear(leftover_of(poly)),
        poly.len() >= 3 ==> leftover_of(poly).len() >= 2,
        poly.len() < 3 ==> triangles_of(poly) == Seq::<Triangle>::empty() && leftover_of(poly)
            == poly,
    decreases poly.len(),
{
    if has_ear(poly) {
        lemma_vertices_are_cut_or_left(poly.remove(first_ear(poly)));
    }
}

/// Three different points take three vertices.
pub proof fn lemma_three_points_take_three_vertices(poly: Seq<Vertex>)
    requires
        three_distinct(poly),
    ensures
        poly.len() >= 3,
{
    let (i, j, k) = choose|i: int, j: int, k: int|
        0 <= i < poly.len() && 0 <= j < poly.len() && 0 <= k < poly.len() && #[trigger] poly[i]
            != #[trigger] poly[j] && poly[i] != #[trigger] poly[k] && poly[j] != poly[k];
    assert(i != j && i != k && j != k);
}

/// A polygon of `n` vertices that is triangulated completely is cut into
/// `n - 2` triangles.
pub proof fn lemma_complete_means_all_but_two(poly: Seq<Vertex>)
    requires
        outcome_of(poly) == Outcome::Complete,
    ensures
        poly.len() >= 3,
        triangles_of(poly).len() == poly.len() - 2,
        leftover_of(poly).len() == 2,
{
    lemma_vertices_are_cut_or_left(poly);
    lemma_three_points_take_three_vertices(poly);
}

/// Every triangle that is cut turns the convex way: it passed the
/// orientation test when it was cut.
pub proof fn lemma_cut_triangles_are_convex(poly: Seq<Vertex>)
    ensures
        forall|k: int|
            0 <= k < triangles_of(poly).len() ==> (#[trigger] triangles_of(poly)[k]).turns_convex(),
    decreases poly.len(),
{
    if has_ear(poly) {
        let rest = poly.remove(first_ear(poly));
        lemma_cut_triangles_are_convex(rest);
        assert forall|k: int| 0 <= k < triangles_of(poly).len() implies (#[trigger] triangles_of(
            poly,
        )[k]).turns_convex() by {
            if k > 0 {
                assert(triangles_of(poly)[k] == triangles_of(rest)[k - 1]);
            }
        }
    }
}

/// Whatever is on a boundary after a vertex was cut was on it before.
pub proof fn lemma_cut_keeps_the_others(poly: Seq<Vertex>, i: int, v: Vertex)
    requires
        0 <= i < poly.len(),
        poly.remove(i).contains(v),
    ensures
        poly.contains(v),
{
    let k = choose|k: int| 0 <= k < poly.remove(i).len() && poly.remove(i)[k] == v;
    if k < i {
        assert(poly[k] == v);
    } else {
        assert(poly[k + 1] == v);
    }
}

/// Clipping makes no new points: the corners of every triangle, and the
/// vertices that are left over, are vertices of the polygon.
pub proof fn lemma_cut_triangles_use_given_vertices(poly: Seq<Vertex>)
    ensures
        forall|k: int|
            0 <= k < triangles_of(poly).len() ==> (#[trigger] triangles_of(poly)[k]).corners_among(
                poly,
            ),
        forall|k: int|
            0 <= k < leftover_of(poly).len() ==> poly.contains(#[trigger] leftover_of(poly)[k]),
    decreases poly.len(),
{
    if has_ear(poly) {
        let i = first_ear(poly);
        let n = poly.len() as int;
        let rest = poly.remove(i);
        lemma_cut_triangles_use_given_vertices(rest);
        assert forall|k: int| 0 <= k < triangles_of(poly).len() implies (#[trigger] triangles_of(
            poly,
        )[k]).corners_among(poly) by {
            if k > 0 {
                let t = triangles_of(rest)[k - 1];
                assert(triangles_of(poly)[k] == t);
                assert(t.corners_among(rest));
                lemma_cut_keeps_the_others(poly, i, t.a);
                lemma_cut_keeps_the_others(poly, i, t.b);
                lemma_cut_keeps_the_others(poly, i, t.c);
            } else {
                assert(poly[prev_index(n, i)] == corner(poly, i).a);
                assert(poly[i] == corner(poly, i).b);
                assert(poly[next_index(n, i)] == corner(poly, i).c);
            }
        }
        assert forall|k: int| 0 <= k < leftover_of(poly).len() implies poly.contains(
            #[trigger] leftover_of(poly)[k],
        ) by {
            assert(rest.contains(leftover_of(rest)[k]));
            lemma_cut_keeps_the_others(poly, i, leftover_of(rest)[k]);
        }
    } else {
        assert forall|k: int| 0 <= k < leftover_of(poly).len() implies poly.contains(
            #[trigger] leftover_of(poly)[k],
        ) by {
            assert(poly[k] == leftover_of(poly)[k]);
        }
    }
}

/// A polygon of three vertices is cut into the one triangle of its
/// vertices, taken from the last vertex round, if it turns the convex way.
/// If it turns the other way, or has no area, nothing is cut.
pub proof fn lemma_three_vertices(poly: Seq<Vertex>)
    requires
        poly.len() == 3,
    ensures
        convex_turn(poly[2], poly[0], poly[1]) ==> triangles_of(poly) == seq![
            Triangle { a: poly[2], b: poly[0], c: poly[1] },
        ] && leftover_of(poly) == seq![poly[1], poly[2]],
        !convex_turn(poly[2], poly[0], poly[1]) ==> triangles_of(poly) == Seq::<Triangle>::empty()
            && leftover_of(poly) == poly,
{
    lemma_orient_rotates(poly[2], poly[0], poly[1]);
    if convex_turn(poly[2], poly[0], poly[1]) {
        assert forall|j: int| 0 <= j < poly.len() implies #[trigger] keeps_clear(poly, 0, j) by {}
        assert(is_first_ear(poly, 0));
        lemma_first_ear_is_unique(poly, 0);
        let rest = poly.remove(0);
        lemma_vertices_are_cut_or_left(rest);
        assert(rest =~= seq![poly[1], poly[2]]);
        assert(triangles_of(poly) =~= seq![Triangle { a: poly[2], b: poly[0], c: poly[1] }]);
    } else {
        if has_ear(poly) {
            let i = first_ear(poly);
            assert(ear_at(poly, i));
            assert(corner(poly, i).turns_convex());
        }
    }
}

/// Whether vertex `i` of `polygon` is an ear.
pub fn is_ear(polygon: &Vec<Vertex>, i: usize) -> (ear: bool)
    ensures
        ear == ear_at(polygon@, i as int),
{
    let n = polygon.len();
    if n < 3 || i >= n {
        return false;
    }
    let p = if i == 0 { n - 1 } else { i - 1 };
    let q = if i + 1 == n { 0 } else { i + 1 };
    let prev = polygon[p];
    let curr = polygon[i];
    let next = polygon[q];
    if !is_convex(&prev, &curr, &next) {
        return false;
    }
    let mut j: usize = 0;
    while j < n
        invariant
            n == polygon.len(),
            n >= 3,
            i < n,
            j <= n,
            p == prev_index(n as int, i as int),
            q == next_index(n as int, i as int),
            (Triangle { a: prev, b: curr, c: next }) == corner(polygon@, i as int),
            forall|k: int| 0 <= k < j ==> #[trigger] keeps_clear(polygon@, i as int, k),
        decreases n - j,
    {
        if j != i && j != p && j != q && point_in_triangle(&polygon[j], &prev, &curr, &next) {
            assert(!keeps_clear(polygon@, i as int, j as int));
            return false;
        }
        j += 1;
    }
    true
}

/// Scans the boundary from index 0 and returns the first ear, if there is
/// one.
pub fn find_ear(polygon: &Vec<Vertex>) -> (found: Option<usize>)
    ensures
        match found {
            Some(i) => is_first_ear(polygon@, i as int),
            None => !has_ear(polygon@),
        },
{
    let n = polygon.len();
    let mut i: usize = 0;
    while i < n
        invariant
            n == polygon.len(),
            i <= n,
            forall|k: int| 0 <= k < i ==> !ear_at(polygon@, k),
        decreases n - i,
    {
        if is_ear(polygon, i) {
            return Some(i);
        }
        i += 1;
    }
    None
}

/// Whether `vertices` holds three different points.
pub fn has_three_distinct(vertices: &Vec<Vertex>) -> (yes: bool)
    ensures
        yes == three_distinct(vertices@),
{
    let n = vertices.len();
    if n == 0 {
        return false;
    }
    let first = vertices[0];
    let mut j: usize = 1;
    while j < n && vertices[j] == first
        invariant
            n == vertices.len(),
            1 <= j <= n,
            first == vertices@[0],
            forall|m: int| 0 <= m < j ==> vertices@[m] == first,
        decreases n - j,
    {
        j += 1;
    }
    if j == n {
        return false;
    }
    let second = vertices[j];
    let mut k: usize = j + 1;
    while k < n && (vertices[k] == first || vertices[k] == second)
        invariant
            n == vertices.len(),
            j < k <= n,
            first == vertices@[0],
            second == vertices@[j as int],
            first != second,
            forall|m: int| 0 <= m < k ==> vertices@[m] == first || vertices@[m] == second,
        decreases n - k,
    {
        k += 1;
    }
    if k < n {
        assert(vertices@[0] != vertices@[j as int] && vertices@[0] != vertices@[k as int]
            && vertices@[j as int] != vertices@[k as int]);
    }
    k < n
}

/// Triangulates the polygon whose boundary is `vertices`, by cutting the
/// first ear again and again until fewer than three vertices are left or no
/// ear is found.
///
/// The boundary is closed: its last vertex is joined to the first. It has to
/// be wound so that its convex corners satisfy [`is_convex`]; see
/// [`Vertex::new`]. For a polygon wound the other way, or one that crosses
/// itself, clipping stops early and the outcome says so.
///
/// The first three clauses say exactly what is returned. The others are
/// consequences, true of every input: how many triangles there are; what
/// comes of fewer than three points and of just three; that the triangles
/// are made of the polygon's own vertices and turn the convex way; that
/// they have the polygon's area; and, for a complete triangulation, that
/// they stay inside the polygon, cover it, and do not overlap if the polygon
/// does not wind twice round any point.
pub fn ear_clipping(vertices: Vec<Vertex>) -> (out: Triangulation)
    ensures
        out.triangles@ == triangles_of(vertices@),
        out.leftover@ == leftover_of(vertices@),
        out.outcome == outcome_of(vertices@),
        out.triangles.len() + out.leftover.len() == vertices.len(),
        vertices.len() >= 3 ==> out.triangles.len() <= vertices.len() - 2,
        out.outcome == Outcome::Complete ==> vertices.len() >= 3 && out.triangles.len()
            == vertices.len() - 2,
        vertices.len() < 3 ==> out.outcome == Outcome::Degenerate,
        out.outcome == Outcome::Degenerate ==> out.triangles.len() == 0 && out.leftover@
            == vertices@,
        vertices.len() == 3 && convex_turn(vertices[2], vertices[0], vertices[1])
            ==> out.triangles@ == seq![
            Triangle { a: vertices[2], b: vertices[0], c: vertices[1] },
        ],
        vertices.len() == 3 && !convex_turn(vertices[2], vertices[0], vertices[1])
            ==> out.triangles.len() == 0,
        forall|k: int|
            0 <= k < out.triangles.len() ==> (#[trigger] out.triangles[k]).turns_convex()
                && out.triangles[k].corners_among(vertices@),
        twice_signed_area(vertices@) == total_twice_signed_area(out.triangles@)
            + twice_signed_area(out.leftover@),
        out.outcome == Outcome::Complete ==> total_twice_area(out.triangles@) == twice_area(
            vertices@,
        ),
        out.outcome == Outcome::Complete ==> triangles_stay_inside(out.triangles@, vertices@)
            && triangles_cover(out.triangles@, vertices@),
        out.outcome == Outcome::Complete && winds_at_most_once(vertices@)
            ==> triangles_do_not_overlap(out.triangles@),
{
    proof {
        lemma_vertices_are_cut_or_left(vertices@);
        lemma_cut_triangles_are_convex(vertices@);
        lemma_cut_triangles_use_given_vertices(vertices@);
        lemma_signed_area_is_kept(vertices@);
        if three_distinct(vertices@) {
            lemma_three_points_take_three_vertices(vertices@);
        } else {
            lemma_degenerate_gives_nothing(vertices@);
        }
        if vertices.len() == 3 {
            lemma_three_vertices(vertices@);
        }
        if outcome_of(vertices@) == Outcome::Complete {
            lemma_area_is_kept(vertices@);
            lemma_cut_triangles_stay_inside(vertices@);
            lemma_cut_triangles_cover(vertices@);
            if winds_at_most_once(vertices@) {
                lemma_cut_triangles_do_not_overlap(vertices@);
            }
        }
    }
    if !has_three_distinct(&vertices) {
        return Triangulation {
            triangles: Vec::new(),
            leftover: vertices,
            outcome: Outcome::Degenerate,
        };
    }
    let mut triangles: Vec<Triangle> = Vec::new();
    let mut polygon = vertices;
    while polygon.len() >= 3
        invariant
            triangles_of(vertices@) == triangles@ + triangles_of(polygon@),
            leftover_of(vertices@) == leftover_of(polygon@),
        ensures
            triangles_of(vertices@) == triangles@ + triangles_of(polygon@),
            leftover_of(vertices@) == leftover_of(polygon@),
            !has_ear(polygon@),
        decreases polygon.len(),
    {
        match find_ear(&polygon) {
            None => {
                break ;
            },
            Some(i) => {
                let n = polygon.len();
                let prev = polygon[if i == 0 { n - 1 } else { i - 1 }];
                let curr = polygon[i];
                let next = polygon[if i + 1 == n { 0 } else { i + 1 }];
                proof {
                    lemma_first_ear_is_unique(polygon@, i as int);
                    assert((triangles@ + seq![corner(polygon@, i as int)]) + triangles_of(
                        polygon@.remove(i as int),
                    ) =~= triangles@ + triangles_of(polygon@));
                }
                triangles.push(Triangle { a: prev, b: curr, c: next });
                polygon.remove(i);
            },
        }
    }
    let outcome = if polygon.len() < 3 {
        Outcome::Complete
    } else {
        Outcome::Partial { remaining: polygon.len() }
    };
    Triangulation { triangles, leftover: polygon, outcome }
}

} // verus!
