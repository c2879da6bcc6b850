//! Points, triangles and the two predicates that ear clipping is built on.
//!
//! All coordinates are integers, so both predicates are exact: there is no
//! rounding and no tolerance.

use vstd::prelude::*;

verus! {

/// A point of the plane.
#[derive(Clone, Copy, Debug, PartialEq, Eq, Structural)]
pub struct Vertex {
    pub x: i32,
    pub y: i32,
}

/// Three points, in the order in which they follow each other on a boundary.
#[derive(Clone, Copy, Debug, PartialEq, Eq, Structural)]
pub struct Triangle {
    pub a: Vertex,
    pub b: Vertex,
    pub c: Vertex,
}

impl Vertex {
    /// The point `(x, y)` of a picture that is `height` high, with the
    /// vertical axis turned over: a source that counts `y` upwards is
    /// mapped to coordinates that count downwards from the top.
    ///
    /// A polygon whose corners are listed counter-clockwise in the source
    /// has, after this flip, the winding that [`is_convex`] expects.
    pub fn new(x: i32, y: i32, height: i32) -> (v: Vertex)
        requires
            i32::MIN <= height - y <= i32::MAX,
        ensures
            v.x == x,
            v.y == height - y,
    {
        Vertex { x, y: height - y }
    }
}

/// The cross product of `b - a` and `c - a` for points given by their
/// coordinates: positive when `c` lies to the left of the line from `a` to
/// `b` in a frame whose `y` grows upwards, negative when it lies to the right.
pub open spec fn cross(ax: int, ay: int, bx: int, by: int, cx: int, cy: int) -> int {
    (bx - ax) * (cy - ay) - (by - ay) * (cx - ax)
}

/// Twice the signed area of the triangle `a`, `b`, `c`. It is zero exactly
/// when the three points lie on one line.
pub open spec fn orient(a: Vertex, b: Vertex, c: Vertex) -> int {
    cross(a.x as int, a.y as int, b.x as int, b.y as int, c.x as int, c.y as int)
}

/// The winding convention of the whole library: the corner `b`, reached from
/// `a` and left towards `c`, is convex when the cross product is negative.
pub open spec fn convex_turn(a: Vertex, b: Vertex, c: Vertex) -> bool {
    orient(a, b, c) < 0
}

/// Numerator of the barycentric weight that `p` gives to `b` in the triangle
/// `a`, `b`, `c`; the denominator is `orient(a, b, c)`.
pub open spec fn weight_b(p: Vertex, a: Vertex, b: Vertex, c: Vertex) -> int {
    a.y * c.x - a.x * c.y + (c.y - a.y) * p.x + (a.x - c.x) * p.y
}

/// Numerator of the barycentric weight that `p` gives to `c`.
pub open spec fn weight_c(p: Vertex, a: Vertex, b: Vertex, c: Vertex) -> int {
    a.x * b.y - a.y * b.x + (a.y - b.y) * p.x + (b.x - a.x) * p.y
}

/// Numerator of the barycentric weight that `p` gives to `a`: the three
/// weights add up to one.
pub open spec fn weight_a(p: Vertex, a: Vertex, b: Vertex, c: Vertex) -> int {
    orient(a, b, c) - weight_b(p, a, b, c) - weight_c(p, a, b, c)
}

/// Whether the fraction `num / den` is defined and not negative.
pub open spec fn ratio_nonneg(num: int, den: int) -> bool {
    (den > 0 && num >= 0) || (den < 0 && num <= 0)
}

/// Whether `p` lies in the closed triangle `a`, `b`, `c`: the triangle has an
/// area and none of the three barycentric weights of `p` is negative. A point
/// on an edge or on a corner is inside. A triangle without area contains
/// nothing.
pub open spec fn in_triangle(p: Vertex, a: Vertex, b: Vertex, c: Vertex) -> bool {
    let d = orient(a, b, c);
    &&& ratio_nonneg(weight_b(p, a, b, c), d)
    &&& ratio_nonneg(weight_c(p, a, b, c), d)
    &&& ratio_nonneg(weight_a(p, a, b, c), d)
}

/// A product of two differences, multiplied out.
proof fn lemma_product_of_differences(p: int, q: int, r: int, s: int)
    by (nonlinear_arith)
    ensures
        (p - q) * (r - s) == p * r - p * s - q * r + q * s,
{
}

/// The factors of a product can change places.
proof fn lemma_product_commutes(p: int, q: int)
    by (nonlinear_arith)
    ensures
        p * q == q * p,
{
}

/// A difference times a factor, multiplied out.
proof fn lemma_difference_times(p: int, q: int, r: int)
    by (nonlinear_arith)
    ensures
        (p - q) * r == p * r - q * r,
{
}

/// The cross product written out as a sum of products of one `x` and one
/// `y`: the shoelace form, which does not change when the three points are
/// taken in turn.
pub proof fn lemma_cross_expands(ax: int, ay: int, bx: int, by: int, cx: int, cy: int)
    ensures
        cross(ax, ay, bx, by, cx, cy) == ax * by - ax * cy + bx * cy - bx * ay + cx * ay - cx * by,
{
    lemma_product_of_differences(bx, ax, cy, ay);
    lemma_product_of_differences(by, ay, cx, ax);
    lemma_product_commutes(by, cx);
    lemma_product_commutes(by, ax);
    lemma_product_commutes(ay, cx);
    lemma_product_commutes(ay, ax);
}

/// Each barycentric numerator is itself a cross product: the weight of a
/// corner is the signed area that `p` spans with the opposite edge.
pub proof fn lemma_weights_are_orientations(p: Vertex, a: Vertex, b: Vertex, c: Vertex)
    ensures
        weight_b(p, a, b, c) == orient(c, a, p),
        weight_c(p, a, b, c) == orient(a, b, p),
        weight_a(p, a, b, c) == orient(b, c, p),
{
    let (px, py) = (p.x as int, p.y as int);
    let (ax, ay) = (a.x as int, a.y as int);
    let (bx, by) = (b.x as int, b.y as int);
    let (cx, cy) = (c.x as int, c.y as int);
    lemma_cross_expands(ax, ay, bx, by, cx, cy);
    lemma_cross_expands(cx, cy, ax, ay, px, py);
    lemma_cross_expands(ax, ay, bx, by, px, py);
    lemma_cross_expands(bx, by, cx, cy, px, py);
    lemma_difference_times(cy, ay, px);
    lemma_difference_times(ax, cx, py);
    lemma_difference_times(ay, by, px);
    lemma_difference_times(bx, ax, py);
    lemma_product_commutes(ay, cx);
    lemma_product_commutes(cy, px);
    lemma_product_commutes(ay, px);
    lemma_product_commutes(ay, bx);
    lemma_product_commutes(by, px);
}

/// Going round the triangle from another corner leaves the cross product as
/// it is.
pub proof fn lemma_orient_rotates(a: Vertex, b: Vertex, c: Vertex)
    ensures
        orient(b, c, a) == orient(a, b, c),
        orient(c, a, b) == orient(a, b, c),
{
    let (ax, ay) = (a.x as int, a.y as int);
    let (bx, by) = (b.x as int, b.y as int);
    let (cx, cy) = (c.x as int, c.y as int);
    lemma_cross_expands(ax, ay, bx, by, cx, cy);
    lemma_cross_expands(bx, by, cx, cy, ax, ay);
    lemma_cross_expands(cx, cy, ax, ay, bx, by);
}

/// The product of two differences of coordinates fits in 65 bits.
proof fn lemma_product_fits(u: int, v: int)
    by (nonlinear_arith)
    requires
        -0x1_0000_0000 < u < 0x1_0000_0000,
        -0x1_0000_0000 < v < 0x1_0000_0000,
    ensures
        -0x1_0000_0000_0000_0000 < u * v < 0x1_0000_0000_0000_0000,
{
}

/// Computes the cross product of `b - a` and `c - a`.
pub fn orientation(a: &Vertex, b: &Vertex, c: &Vertex) -> (r: i128)
    ensures
        r == orient(*a, *b, *c),
{
    let abx: i64 = b.x as i64 - a.x as i64;
    let aby: i64 = b.y as i64 - a.y as i64;
    let acx: i64 = c.x as i64 - a.x as i64;
    let acy: i64 = c.y as i64 - a.y as i64;
    proof {
        lemma_product_fits(abx as int, acy as int);
        lemma_product_fits(aby as int, acx as int);
    }
    (abx as i128) * (acy as i128) - (aby as i128) * (acx as i128)
}

/// The orientation test: whether the boundary turns the convex way at `b`.
/// Three points on one line do not count as convex. The answer depends on
/// the three points and on nothing else.
pub fn is_convex(a: &Vertex, b: &Vertex, c: &Vertex) -> (convex: bool)
    ensures
        convex == convex_turn(*a, *b, *c),
{
    orientation(a, b, c) < 0
}

/// The membership test: whether `p` lies in the closed triangle `a`, `b`,
/// `c`. The weights are compared by sign, so nothing is divided, and a
/// triangle without area is answered with `false`. The answer depends on the
/// four points and on nothing else.
pub fn point_in_triangle(p: &Vertex, a: &Vertex, b: &Vertex, c: &Vertex) -> (inside: bool)
    ensures
        inside == in_triangle(*p, *a, *b, *c),
{
    let d = orientation(a, b, c);
    let s = orientation(c, a, p);
    let t = orientation(a, b, p);
    let u = orientation(b, c, p);
    proof {
        lemma_weights_are_orientations(*p, *a, *b, *c);
    }
    if d > 0 {
        s >= 0 && t >= 0 && u >= 0
    } else if d < 0 {
        s <= 0 && t <= 0 && u <= 0
    } else {
        false
    }
}

} // verus!
