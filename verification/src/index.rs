//! The spatial index: an R-tree of saved positions keyed by their projected,
//! quantised points, with the trusted bridge to the rstar crate.
//!
//! The tree stores, for each saved position, its quantised projected point
//! and its name; what the tree holds is described by the uninterpreted
//! multiset [`rtree_entries`], and every tree operation the crate uses is a
//! trusted wrapper whose contract speaks over that multiset.

use crate::earth::{project, project_of, Coord};
use crate::pos::Coords;
use crate::vect::SCALE;
use vstd::multiset::Multiset;
use vstd::prelude::*;

verus! {

/// How many projection units one tree unit stands for: projected components
/// in `[-SCALE, SCALE]` become tree coordinates in `[0, TREE_MAX]`, small
/// enough that the index's internal 64-bit products cannot overflow.
pub const TREE_QUANT: i64 = 200;

/// The largest tree coordinate.
pub const TREE_MAX: i64 = 1_000_000;

/// The R-tree of quantised points with names. The tree itself is opaque to
/// the verifier: what it holds is described by [`rtree_entries`], and the
/// trusted functions below say how each operation changes that multiset.
#[verifier::external_body]
pub struct PosTree {
    tree: rstar::RTree<rstar::primitives::GeomWithData<[i64; 3], String>>,
}

/// What the tree holds: a multiset of quantised points with names.
pub uninterp spec fn rtree_entries(t: PosTree) -> Multiset<((int, int, int), Seq<char>)>;

/// The entries that a vector of tree elements stands for.
pub open spec fn seq_entries(s: Seq<((i64, i64, i64), String)>) -> Seq<((int, int, int), Seq<char>)> {
    s.map_values(
        |e: ((i64, i64, i64), String)| (((e.0.0 as int, e.0.1 as int, e.0.2 as int), e.1@)),
    )
}

/// The squared straight-line distance between two tree points.
pub open spec fn qdist2(a: (int, int, int), b: (int, int, int)) -> int {
    (a.0 - b.0) * (a.0 - b.0) + (a.1 - b.1) * (a.1 - b.1) + (a.2 - b.2) * (a.2 - b.2)
}

/// A point lies within the tree's coordinate range.
pub open spec fn in_tree_range(p: (int, int, int)) -> bool {
    0 <= p.0 <= TREE_MAX as int && 0 <= p.1 <= TREE_MAX as int && 0 <= p.2 <= TREE_MAX as int
}

/// Every entry of the tree lies within the tree's coordinate range.
pub open spec fn tree_in_range(t: PosTree) -> bool {
    forall|e: ((int, int, int), Seq<char>)|
        rtree_entries(t).count(e) > 0 ==> in_tree_range(e.0)
}

/// One projected component, quantised to a tree coordinate.
pub open spec fn spec_quant(x: int) -> int {
    (x + SCALE as int) / (TREE_QUANT as int)
}

/// The tree point of a coordinate: its projection, quantised.
pub open spec fn spec_tree_point(c: Coord) -> (int, int, int) {
    let (x, y, z) = project_of(c.lat_e7 as int, c.lon_e7 as int);
    (spec_quant(x), spec_quant(y), spec_quant(z))
}

/// The point under which a position is stored in the spatial index: its
/// projected unit n-vector, quantised to the index's coordinate range.
pub fn rtree_point<T: Coords>(pos: &T) -> (r: (i64, i64, i64))
    ensures
        (r.0 as int, r.1 as int, r.2 as int) == spec_tree_point(pos.spec_coords()),
        in_tree_range((r.0 as int, r.1 as int, r.2 as int)),
{
    let v = project(pos.coords());
    let rx = ((v.x + SCALE) as u64 / (TREE_QUANT as u64)) as i64;
    let ry = ((v.y + SCALE) as u64 / (TREE_QUANT as u64)) as i64;
    let rz = ((v.z + SCALE) as u64 / (TREE_QUANT as u64)) as i64;
    proof {
        lemma_quant_range(v.x as int);
        lemma_quant_range(v.y as int);
        lemma_quant_range(v.z as int);
    }
    (rx, ry, rz)
}

/// Quantising a projected component lands in the tree range.
proof fn lemma_quant_range(x: int)
    requires
        -(SCALE as int) <= x <= SCALE as int,
    ensures
        0 <= spec_quant(x) <= TREE_MAX as int,
{
    vstd::arithmetic::div_mod::lemma_div_pos_is_pos(x + SCALE as int, TREE_QUANT as int);
    vstd::arithmetic::div_mod::lemma_multiply_divide_le(
        x + SCALE as int,
        TREE_QUANT as int,
        TREE_MAX as int,
    );
}

/// Relies on rstar's `RTree::new`: an empty tree.
#[verifier::external_body]
pub(crate) fn rt_new() -> (t: PosTree)
    ensures
        rtree_entries(t) == Multiset::<((int, int, int), Seq<char>)>::empty(),
{
    PosTree { tree: rstar::RTree::new() }
}

/// Relies on rstar's `RTree::insert`: the element joins the tree (twice if
/// already present).
#[verifier::external_body]
pub(crate) fn rt_insert(t: &mut PosTree, p: (i64, i64, i64), name: String)
    ensures
        rtree_entries(*final(t)) == rtree_entries(*old(t)).insert(
            ((p.0 as int, p.1 as int, p.2 as int), name@),
        ),
{
    t.tree.insert(rstar::primitives::GeomWithData::new([p.0, p.1, p.2], name));
}

/// Relies on rstar's `RTree::remove`: removes and returns one element equal
/// to the given one, or returns nothing when none is present.
#[verifier::external_body]
pub(crate) fn rt_remove(t: &mut PosTree, p: (i64, i64, i64), name: &String) -> (r: bool)
    ensures
        ({
            let e = ((p.0 as int, p.1 as int, p.2 as int), name@);
            if rtree_entries(*old(t)).count(e) >= 1 {
                r == true && rtree_entries(*final(t)) == rtree_entries(*old(t)).remove(e)
            } else {
                r == false && rtree_entries(*final(t)) == rtree_entries(*old(t))
            }
        }),
{
    t.tree.remove(&rstar::primitives::GeomWithData::new([p.0, p.1, p.2], name.clone())).is_some()
}

/// Relies on rstar's `RTree::nearest_neighbor_iter`: all elements of the
/// tree, sorted by increasing squared distance to the query point, the
/// squared distance being the sum of the squared component differences. The
/// stored points and the query must be in the tree's coordinate range so
/// that the index's internal 64-bit arithmetic is exact.
#[verifier::external_body]
pub(crate) fn rt_nearest(t: &PosTree, q: (i64, i64, i64)) -> (r: Vec<((i64, i64, i64), String)>)
    requires
        tree_in_range(*t),
        in_tree_range((q.0 as int, q.1 as int, q.2 as int)),
    ensures
        seq_entries(r@).to_multiset() == rtree_entries(*t),
        forall|k1: int, k2: int|
            0 <= k1 <= k2 < r@.len() ==> qdist2(
                seq_entries(r@)[k1].0,
                (q.0 as int, q.1 as int, q.2 as int),
            ) <= qdist2(seq_entries(r@)[k2].0, (q.0 as int, q.1 as int, q.2 as int)),
{
    t.tree.nearest_neighbor_iter([q.0, q.1, q.2])
        .map(|e| ((e.geom()[0], e.geom()[1], e.geom()[2]), e.data.clone()))
        .collect()
}

/// Relies on rstar's `RTree::iter`: all elements of the tree, in no
/// specified order.
#[verifier::external_body]
pub(crate) fn rt_iter(t: &PosTree) -> (r: Vec<((i64, i64, i64), String)>)
    ensures
        seq_entries(r@).to_multiset() == rtree_entries(*t),
{
    t.tree.iter().map(|e| ((e.geom()[0], e.geom()[1], e.geom()[2]), e.data.clone())).collect()
}

} // verus!
