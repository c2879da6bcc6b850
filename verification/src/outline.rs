//! The outline of a polygon: the line segments that a renderer has to draw
//! to show its boundary.

use vstd::prelude::*;
use crate::geometry::Vertex;
use crate::clipping::next_index;

verus! {

/// A straight line from one point to another.
#[derive(Clone, Copy, Debug, PartialEq, Eq, Structural)]
pub struct Segment {
    pub from: Vertex,
    pub to: Vertex,
}

/// The point `p` of a picture that is `height` high, with the vertical axis
/// turned over, as [`Vertex::new`] makes it.
pub open spec fn flipped(p: (i32, i32), height: i32) -> Vertex {
    Vertex { x: p.0, y: (height - p.1) as i32 }
}

/// Every point of `points` can be flipped in a picture that is `height`
/// high without leaving the range of the coordinates.
pub open spec fn flips_fit(points: Seq<(i32, i32)>, height: i32) -> bool {
    forall|i: int| 0 <= i < points.len() ==> i32::MIN <= height - (#[trigger] points[i]).1 <= i32::MAX
}

/// The outline of the closed boundary `points`: one segment for each point,
/// from it to the next, and from the last point back to the first, all with
/// the vertical axis turned over.
pub open spec fn outline_of(points: Seq<(i32, i32)>, height: i32) -> Seq<Segment> {
    Seq::new(
        points.len(),
        |i: int|
            Segment {
                from: flipped(points[i], height),
                to: flipped(points[next_index(points.len() as int, i)], height),
            },
    )
}

/// Computes the segments that outline the polygon `points` in a picture that
/// is `image_height` high.
pub fn polygon_outline(points: &[(i32, i32)], image_height: i32) -> (lines: Vec<Segment>)
    requires
        flips_fit(points@, image_height),
    ensures
        lines@ == outline_of(points@, image_height),
{
    let n = points.len();
    let mut lines: Vec<Segment> = Vec::new();
    let mut i: usize = 0;
    while i < n
        invariant
            n == points.len(),
            i <= n,
            flips_fit(points@, image_height),
            lines.len() == i,
            forall|k: int| 0 <= k < i ==> lines@[k] == outline_of(points@, image_height)[k],
        decreases n - i,
    {
        let (x1, y1) = points[i];
        let (x2, y2) = points[if i + 1 == n { 0 } else { i + 1 }];
        let from = Vertex::new(x1, y1, image_height);
        let to = Vertex::new(x2, y2, image_height);
        lines.push(Segment { from, to });
        i += 1;
    }
    assert(lines@ =~= outline_of(points@, image_height));
    lines
}

} // verus!
