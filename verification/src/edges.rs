//! Sums over the edges of a closed boundary, and what cutting one vertex
//! does to such a sum.
//!
//! Both the area of a polygon and the number of times it winds round a point
//! are sums of one term per edge, so the one lemma at the end of this file
//! serves both.

use vstd::prelude::*;
use crate::geometry::Vertex;
use crate::clipping::{next_index, prev_index};

verus! {

/// Sum of `term` over the edges from vertex `lo` to vertex `hi` of an open
/// chain: `term(pts[lo], pts[lo + 1]) + ... + term(pts[hi - 1], pts[hi])`.
pub open spec fn chain_sum(
    pts: Seq<Vertex>,
    term: spec_fn(Vertex, Vertex) -> int,
    lo: int,
    hi: int,
) -> int
    decreases hi - lo,
{
    if hi <= lo {
        0
    } else {
        chain_sum(pts, term, lo, hi - 1) + term(pts[hi - 1], pts[hi])
    }
}

/// Sum of `term` over all edges of the closed boundary `pts`, the edge from
/// the last vertex back to the first included.
pub open spec fn edge_sum(pts: Seq<Vertex>, term: spec_fn(Vertex, Vertex) -> int) -> int {
    if pts.len() == 0 {
        0
    } else {
        chain_sum(pts, term, 0, pts.len() - 1) + term(pts.last(), pts[0])
    }
}

/// A chain can be summed in two parts.
pub proof fn lemma_chain_splits(
    pts: Seq<Vertex>,
    term: spec_fn(Vertex, Vertex) -> int,
    lo: int,
    mid: int,
    hi: int,
)
    requires
        lo <= mid <= hi,
    ensures
        chain_sum(pts, term, lo, hi) == chain_sum(pts, term, lo, mid) + chain_sum(
            pts,
            term,
            mid,
            hi,
        ),
    decreases hi - mid,
{
    if mid < hi {
        lemma_chain_splits(pts, term, lo, mid, hi - 1);
    }
}

/// Two chains that hold the same vertices, one of them `shift` places
/// further on, have the same sum.
pub proof fn lemma_chain_shifts(
    pts: Seq<Vertex>,
    other: Seq<Vertex>,
    term: spec_fn(Vertex, Vertex) -> int,
    lo: int,
    hi: int,
    shift: int,
)
    requires
        forall|j: int| lo <= j <= hi ==> other[j] == pts[j + shift],
    ensures
        chain_sum(other, term, lo, hi) == chain_sum(pts, term, lo + shift, hi + shift),
    decreases hi - lo,
{
    if lo < hi {
        lemma_chain_shifts(pts, other, term, lo, hi - 1, shift);
    }
}

/// Cutting vertex `i` out of a closed boundary replaces the two edges at
/// `i` by the one edge that joins its neighbours; every other edge stays.
pub proof fn lemma_edge_sum_without_vertex(
    pts: Seq<Vertex>,
    term: spec_fn(Vertex, Vertex) -> int,
    i: int,
)
    requires
        pts.len() >= 3,
        0 <= i < pts.len(),
    ensures
        edge_sum(pts, term) == edge_sum(pts.remove(i), term) + term(
            pts[prev_index(pts.len() as int, i)],
            pts[i],
        ) + term(pts[i], pts[next_index(pts.len() as int, i)]) - term(
            pts[prev_index(pts.len() as int, i)],
            pts[next_index(pts.len() as int, i)],
        ),
{
    let n = pts.len() as int;
    let rest = pts.remove(i);
    if i == 0 {
        lemma_chain_splits(pts, term, 0, 1, n - 1);
        assert(chain_sum(pts, term, 0, 1) == term(pts[0], pts[1])) by {
            reveal_with_fuel(chain_sum, 2);
        }
        lemma_chain_shifts(pts, rest, term, 0, n - 2, 1);
    } else if i == n - 1 {
        lemma_chain_shifts(pts, rest, term, 0, n - 2, 0);
    } else {
        lemma_chain_splits(pts, term, 0, i - 1, n - 1);
        lemma_chain_splits(pts, term, i - 1, i + 1, n - 1);
        assert(chain_sum(pts, term, i - 1, i + 1) == term(pts[i - 1], pts[i]) + term(
            pts[i],
            pts[i + 1],
        )) by {
            reveal_with_fuel(chain_sum, 3);
        }
        lemma_chain_splits(rest, term, 0, i - 1, n - 2);
        lemma_chain_splits(rest, term, i - 1, i, n - 2);
        assert(chain_sum(rest, term, i - 1, i) == term(rest[i - 1], rest[i])) by {
            reveal_with_fuel(chain_sum, 2);
        }
        lemma_chain_shifts(pts, rest, term, 0, i - 1, 0);
        lemma_chain_shifts(pts, rest, term, i, n - 2, 1);
    }
}

} // verus!
