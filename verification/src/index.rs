use vstd::prelude::*;

use crate::parsing::MapType;
use crate::spatial::{Coordinate, Region};
use std::sync::Arc;
use vstd::arithmetic::div_mod::{lemma_div_is_ordered, lemma_fundamental_div_mod_converse};
use vstd::multiset::Multiset;

verus! {

/// The metadata of one indexed file.
#[derive(Debug, Clone)]
pub struct MetaData {
    pub region: Region,
    pub tags: Vec<(String, String)>,
}

/// One indexed file: its metadata and a shared handle to the map it
/// came from, shared because result rows reference the same map.
#[derive(Debug, Clone)]
pub struct Node {
    pub metadata: MetaData,
    pub map: Arc<MapType>,
}

/// The tag lists of two nodes hold the same texts.
pub open spec fn tags_match(a: Seq<(String, String)>, b: Seq<(String, String)>) -> bool {
    a.len() == b.len() && forall|i: int|
        0 <= i < a.len() ==> (#[trigger] a[i]).0@ == b[i].0@ && a[i].1@ == b[i].1@
}

/// Two nodes describe the same file: same region, same tag texts, and
/// a handle to the same map.
pub open spec fn node_matches(a: Node, b: Node) -> bool {
    a.metadata.region == b.metadata.region && tags_match(a.metadata.tags@, b.metadata.tags@)
        && a.map == b.map
}

/// Matching is transitive: matching a matching node matches the
/// original.
pub proof fn lemma_node_matches_trans(a: Node, b: Node, c: Node)
    requires
        node_matches(a, b),
        node_matches(b, c),
    ensures
        node_matches(a, c),
{
    assert forall|i: int|
        0 <= i < a.metadata.tags@.len() implies (#[trigger] a.metadata.tags@[i]).0@
        == c.metadata.tags@[i].0@ && a.metadata.tags@[i].1@ == c.metadata.tags@[i].1@ by {
        assert(a.metadata.tags@[i].0@ == b.metadata.tags@[i].0@);
        assert(b.metadata.tags@[i].0@ == c.metadata.tags@[i].0@);
        assert(a.metadata.tags@[i].1@ == b.metadata.tags@[i].1@);
    }
}

/// Relies on Arc::clone: cloning a shared handle yields a handle to
/// the same value.
#[verifier::external_body]
fn arc_clone(m: &Arc<MapType>) -> (r: Arc<MapType>)
    ensures
        r == *m,
{
    m.clone()
}

fn clone_tags(tags: &Vec<(String, String)>) -> (r: Vec<(String, String)>)
    ensures
        tags_match(r@, tags@),
{
    let mut r: Vec<(String, String)> = Vec::new();
    let mut i: usize = 0;
    while i < tags.len()
        invariant
            i <= tags@.len(),
            r@.len() == i,
            forall|j: int| 0 <= j < i ==> (#[trigger] r@[j]).0@ == tags@[j].0@ && r@[j].1@ == tags@[j].1@,
        decreases tags@.len() - i,
    {
        let t = &tags[i];
        r.push((t.0.clone(), t.1.clone()));
        i = i + 1;
    }
    r
}

/// Clone one indexed node; the clone describes the same file.
pub fn clone_node(n: &Node) -> (r: Node)
    ensures
        node_matches(r, *n),
{
    Node {
        metadata: MetaData { region: n.metadata.region, tags: clone_tags(&n.metadata.tags) },
        map: arc_clone(&n.map),
    }
}

/// The R-tree over footprints.  It wraps rstar::RTree, whose
/// trait-bounded generics the verifier cannot express, so the
/// collection is held opaque; its contents are named by
/// `rtree_entries`: envelopes as `(west, south, east, north)` with a
/// payload index.
#[verifier::external_body]
pub struct FootprintTree {
    tree: rstar::RTree<rstar::primitives::GeomWithData<rstar::primitives::Rectangle<[i64; 2]>, usize>>,
}

/// What the footprint tree holds: one envelope/payload tuple per
/// inserted element.
pub uninterp spec fn rtree_entries(t: &FootprintTree) -> Multiset<(i64, i64, i64, i64, usize)>;

/// Relies on rstar::RTree::new: a new tree holds no elements.
#[verifier::external_body]
pub fn rtree_new() -> (t: FootprintTree)
    ensures
        rtree_entries(&t) == Multiset::<(i64, i64, i64, i64, usize)>::empty(),
{
    FootprintTree { tree: rstar::RTree::new() }
}

/// Relies on rstar::RTree::insert and Rectangle::from_corners:
/// inserting adds exactly the given element to the tree's contents.
/// Insertion multiplies and sums i64 envelope side lengths (areas,
/// margins, overlaps), so the coordinates must stay within the key
/// range: sides are then at most `2 * CELL_LIMIT` and every product or
/// small sum of products the tree forms fits i64.
#[verifier::external_body]
pub fn rtree_insert(t: &mut FootprintTree, lo: Coordinate, hi: Coordinate, id: usize)
    requires
        -CELL_LIMIT <= lo.0 <= hi.0 <= CELL_LIMIT,
        -CELL_LIMIT <= lo.1 <= hi.1 <= CELL_LIMIT,
    ensures
        rtree_entries(final(t)) == rtree_entries(old(t)).insert((lo.0, lo.1, hi.0, hi.1, id)),
{
    t.tree.insert(
        rstar::primitives::GeomWithData::new(
            rstar::primitives::Rectangle::from_corners([lo.0, lo.1], [hi.0, hi.1]),
            id,
        ),
    );
}

/// Two closed envelopes overlap in both axes.
pub open spec fn entry_intersects(e: (i64, i64, i64, i64, usize), lo: Coordinate, hi: Coordinate) -> bool {
    e.0 <= hi.0 && e.2 >= lo.0 && e.1 <= hi.1 && e.3 >= lo.1
}

/// Relies on rstar::RTree::locate_in_envelope_intersecting: it yields
/// exactly the elements whose envelopes intersect the query envelope;
/// each is mapped to its payload.
#[verifier::external_body]
pub fn rtree_locate_intersecting(t: &FootprintTree, lo: Coordinate, hi: Coordinate) -> (r: Vec<
    usize,
>)
    requires
        lo.0 <= hi.0,
        lo.1 <= hi.1,
    ensures
        forall|i: int|
            0 <= i < r@.len() ==> exists|e: (i64, i64, i64, i64, usize)|
                rtree_entries(t).count(e) > 0 && (#[trigger] r@[i]) == e.4 && entry_intersects(
                    e,
                    lo,
                    hi,
                ),
        forall|e: (i64, i64, i64, i64, usize)|
            (#[trigger] rtree_entries(t).count(e)) > 0 && entry_intersects(e, lo, hi)
                ==> r@.contains(e.4),
{
    t.tree.locate_in_envelope_intersecting(
        rstar::AABB::from_corners([lo.0, lo.1], [hi.0, hi.1]),
    ).map(|g| g.data).collect()
}

/// Units per grid cell of the tree's keys.  The tree works on i64
/// envelopes and multiplies side lengths during insertion; full-range
/// coordinates at the library's unit scale would overflow those
/// products, so keys are kept on a coarser grid (one cell is about
/// five metres) and saturated to `CELL_LIMIT`, far outside any
/// geographic range but small enough that every product the tree forms
/// stays within i64.
pub const CELL_SIZE: i64 = 4096;

/// The largest cell coordinate a tree key may carry.
pub const CELL_LIMIT: i64 = 100_000_000;

/// A value saturated into the key range.
pub open spec fn cell_clamp(c: int) -> i64 {
    if c > CELL_LIMIT as int {
        CELL_LIMIT
    } else if c < -(CELL_LIMIT as int) {
        (-CELL_LIMIT) as i64
    } else {
        c as i64
    }
}

/// The greatest cell boundary at or below the coordinate, saturated.
pub open spec fn spec_cell_floor(t: i64) -> i64 {
    cell_clamp(t as int / CELL_SIZE as int)
}

/// The least cell boundary at or above the coordinate, saturated.
pub open spec fn spec_cell_ceil(t: i64) -> i64 {
    cell_clamp(-((-(t as int)) / CELL_SIZE as int))
}

/// A coordinate's floor never exceeds the ceiling of a coordinate at
/// or above it.
pub proof fn lemma_cell_floor_le_ceil(a: i64, b: i64)
    requires
        a <= b,
    ensures
        -CELL_LIMIT <= spec_cell_floor(a) <= spec_cell_ceil(b) <= CELL_LIMIT,
{
    lemma_div_is_ordered(a as int, b as int, CELL_SIZE as int);
    lemma_floor_le_ceil(b as int);
}

proof fn lemma_floor_le_ceil(t: int)
    ensures
        t / (CELL_SIZE as int) <= -((-t) / (CELL_SIZE as int)),
{
    let d = CELL_SIZE as int;
    let f = t / d;
    let r = t % d;
    vstd::arithmetic::div_mod::lemma_fundamental_div_mod(t, d);
    if r > 0 {
        lemma_fundamental_div_mod_converse(-t, d, -f - 1, d - r);
    } else {
        lemma_fundamental_div_mod_converse(-t, d, -f, 0);
    }
}

fn cell_floor(t: i64) -> (r: i64)
    ensures
        r == spec_cell_floor(t),
{
    let q = t / CELL_SIZE;
    let m = t % CELL_SIZE;
    let f = if m < 0 {
        q - 1
    } else {
        q
    };
    proof {
        if m < 0 {
            lemma_fundamental_div_mod_converse(t as int, CELL_SIZE as int, f as int, (m
                + CELL_SIZE) as int);
        } else {
            lemma_fundamental_div_mod_converse(t as int, CELL_SIZE as int, f as int, m as int);
        }
    }
    if f > CELL_LIMIT {
        CELL_LIMIT
    } else if f < -CELL_LIMIT {
        -CELL_LIMIT
    } else {
        f
    }
}

fn cell_ceil(t: i64) -> (r: i64)
    ensures
        r == spec_cell_ceil(t),
{
    let q = t / CELL_SIZE;
    let m = t % CELL_SIZE;
    let c = if m > 0 {
        q + 1
    } else {
        q
    };
    proof {
        if m > 0 {
            lemma_fundamental_div_mod_converse(-(t as int), CELL_SIZE as int, (-c) as int, (
            CELL_SIZE - m) as int);
        } else {
            lemma_fundamental_div_mod_converse(-(t as int), CELL_SIZE as int, (-c) as int, (
            -m) as int);
        }
    }
    if c > CELL_LIMIT {
        CELL_LIMIT
    } else if c < -CELL_LIMIT {
        -CELL_LIMIT
    } else {
        c
    }
}

/// The cell envelope a region spans: corners ordered componentwise,
/// floored and ceiled onto the key grid so the envelope covers the
/// region, exactly as the tree stores it.
pub open spec fn envelope_of(r: Region) -> (i64, i64, i64, i64) {
    (
        spec_cell_floor(
            if r.top_left.0 <= r.bottom_right.0 {
                r.top_left.0
            } else {
                r.bottom_right.0
            },
        ),
        spec_cell_floor(
            if r.bottom_right.1 <= r.top_left.1 {
                r.bottom_right.1
            } else {
                r.top_left.1
            },
        ),
        spec_cell_ceil(
            if r.top_left.0 <= r.bottom_right.0 {
                r.bottom_right.0
            } else {
                r.top_left.0
            },
        ),
        spec_cell_ceil(
            if r.bottom_right.1 <= r.top_left.1 {
                r.top_left.1
            } else {
                r.bottom_right.1
            },
        ),
    )
}

/// The cell envelope a query rectangle spans, covering it the same way
/// the stored envelopes cover their regions.
pub open spec fn query_cell_lo(lo: Coordinate) -> Coordinate {
    (spec_cell_floor(lo.0), spec_cell_floor(lo.1))
}

pub open spec fn query_cell_hi(hi: Coordinate) -> Coordinate {
    (spec_cell_ceil(hi.0), spec_cell_ceil(hi.1))
}

/// The tree entry that stands for the node stored at `i`.
pub open spec fn entry_for(n: Node, i: int) -> (i64, i64, i64, i64, usize) {
    let e = envelope_of(n.metadata.region);
    (e.0, e.1, e.2, e.3, i as usize)
}

/// Some stored node intersecting the query envelope matches the node.
pub open spec fn matches_some_intersecting(
    nodes: Seq<Node>,
    n: Node,
    lo: Coordinate,
    hi: Coordinate,
) -> bool {
    exists|j: int|
        0 <= j < nodes.len() && node_matches(n, #[trigger] nodes[j]) && entry_intersects(
            entry_for(nodes[j], j),
            lo,
            hi,
        )
}

/// Some returned node matches the stored node.
pub open spec fn represented(rs: Seq<Node>, n: Node) -> bool {
    exists|i: int| 0 <= i < rs.len() && node_matches(#[trigger] rs[i], n)
}

/// The spatial index: the R-tree over envelopes, and the nodes the
/// envelopes' payloads point into.
pub struct SpatialIndex {
    pub tree: FootprintTree,
    pub nodes: Vec<Node>,
}

impl SpatialIndex {
    /// Every tree entry points at the stored node it was built from,
    /// and every stored node is in the tree.
    pub open spec fn wf(self) -> bool {
        &&& forall|e: (i64, i64, i64, i64, usize)|
            #[trigger] rtree_entries(&self.tree).count(e) > 0 ==> e.4 < self.nodes@.len() && e
                == entry_for(self.nodes@[e.4 as int], e.4 as int)
        &&& forall|i: int|
            0 <= i < self.nodes@.len() ==> rtree_entries(&self.tree).count(
                #[trigger] entry_for(self.nodes@[i], i),
            ) > 0
    }

    /// An empty index.
    pub fn new() -> (r: SpatialIndex)
        ensures
            r.wf(),
            r.nodes@.len() == 0,
    {
        let r = SpatialIndex { tree: rtree_new(), nodes: Vec::new() };
        proof {
            assert forall|e: (i64, i64, i64, i64, usize)|
                #[trigger] rtree_entries(&r.tree).count(e) > 0 implies e.4 < r.nodes@.len() && e
                == entry_for(r.nodes@[e.4 as int], e.4 as int) by {
                assert(rtree_entries(&r.tree).count(e) == 0);
            }
        }
        r
    }

    /// The number of indexed files.
    pub fn len(&self) -> (r: usize)
        ensures
            r == self.nodes@.len(),
    {
        self.nodes.len()
    }

    /// Insert one node: its envelope goes into the tree, pointing at
    /// its slot in the node store.
    pub fn insert(&mut self, node: Node)
        requires
            old(self).wf(),
            old(self).nodes@.len() < usize::MAX,
        ensures
            final(self).wf(),
            final(self).nodes@ == old(self).nodes@.push(node),
    {
        let id = self.nodes.len();
        let region = node.metadata.region;
        let (min_x, max_x) = if region.top_left.0 <= region.bottom_right.0 {
            (region.top_left.0, region.bottom_right.0)
        } else {
            (region.bottom_right.0, region.top_left.0)
        };
        let (min_y, max_y) = if region.bottom_right.1 <= region.top_left.1 {
            (region.bottom_right.1, region.top_left.1)
        } else {
            (region.top_left.1, region.bottom_right.1)
        };
        let lo_x = cell_floor(min_x);
        let lo_y = cell_floor(min_y);
        let hi_x = cell_ceil(max_x);
        let hi_y = cell_ceil(max_y);
        proof {
            lemma_cell_floor_le_ceil(min_x, max_x);
            lemma_cell_floor_le_ceil(min_y, max_y);
        }
        self.nodes.push(node);
        rtree_insert(&mut self.tree, (lo_x, lo_y), (hi_x, hi_y), id);
        proof {
            let inserted = (lo_x, lo_y, hi_x, hi_y, id);
            assert(inserted == entry_for(self.nodes@[id as int], id as int));
            assert forall|e: (i64, i64, i64, i64, usize)|
                #[trigger] rtree_entries(&self.tree).count(e) > 0 implies e.4 < self.nodes@.len()
                && e == entry_for(self.nodes@[e.4 as int], e.4 as int) by {
                if e != inserted {
                    assert(rtree_entries(&old(self).tree).count(e) > 0);
                    assert(old(self).nodes@[e.4 as int] == self.nodes@[e.4 as int]);
                }
            }
            assert forall|i: int| 0 <= i < self.nodes@.len() implies rtree_entries(&self.tree).count(
                #[trigger] entry_for(self.nodes@[i], i),
            ) > 0 by {
                if i < id {
                    assert(old(self).nodes@[i] == self.nodes@[i]);
                    assert(rtree_entries(&old(self).tree).count(entry_for(old(self).nodes@[i], i))
                        > 0);
                }
            }
        }
    }

    /// Every node whose stored cell envelope intersects the query's
    /// cell envelope, as clones: each returned node matches such a
    /// stored node, and every such stored node is represented.  The
    /// query rectangle is floored and ceiled onto the key grid exactly
    /// as the stored envelopes were, so a true intersection is never
    /// missed.
    #[verifier::loop_isolation(false)]
    pub fn query(&self, lo: Coordinate, hi: Coordinate) -> (r: Vec<Node>)
        requires
            self.wf(),
            lo.0 <= hi.0,
            lo.1 <= hi.1,
        ensures
            forall|i: int|
                0 <= i < r@.len() ==> matches_some_intersecting(
                    self.nodes@,
                    #[trigger] r@[i],
                    query_cell_lo(lo),
                    query_cell_hi(hi),
                ),
            forall|j: int|
                0 <= j < self.nodes@.len() && entry_intersects(
                    #[trigger] entry_for(self.nodes@[j], j),
                    query_cell_lo(lo),
                    query_cell_hi(hi),
                ) ==> represented(r@, self.nodes@[j]),
    {
        let qlo = (cell_floor(lo.0), cell_floor(lo.1));
        let qhi = (cell_ceil(hi.0), cell_ceil(hi.1));
        let ghost lo = query_cell_lo(lo);
        let ghost hi = query_cell_hi(hi);
        let ids = rtree_locate_intersecting(&self.tree, qlo, qhi);
        let nlen: usize = self.nodes.len();
        let mut out: Vec<Node> = Vec::new();
        let mut i: usize = 0;
        while i < ids.len()
            invariant
                i <= ids@.len(),
                out@.len() == i,
                forall|k: int|
                    0 <= k < i ==> (#[trigger] ids@[k]) < self.nodes@.len() && node_matches(
                        out@[k],
                        self.nodes@[ids@[k] as int],
                    ),
                forall|k: int|
                    0 <= k < i ==> matches_some_intersecting(
                        self.nodes@,
                        #[trigger] out@[k],
                        lo,
                        hi,
                    ),
            decreases ids@.len() - i,
        {
            proof {
                let e = choose|e: (i64, i64, i64, i64, usize)|
                    rtree_entries(&self.tree).count(e) > 0 && ids@[i as int] == e.4
                        && entry_intersects(e, lo, hi);
                assert(e.4 < self.nodes@.len());
                assert(e == entry_for(self.nodes@[e.4 as int], e.4 as int));
            }
            let id = ids[i];
            out.push(clone_node(&self.nodes[id]));
            proof {
                assert(node_matches(out@[i as int], self.nodes@[id as int]));
                assert(entry_intersects(entry_for(self.nodes@[id as int], id as int), lo, hi));
                assert(matches_some_intersecting(self.nodes@, out@[i as int], lo, hi));
            }
            i = i + 1;
        }
        proof {
            assert forall|j: int|
                0 <= j < self.nodes@.len() && entry_intersects(
                    #[trigger] entry_for(self.nodes@[j], j),
                    lo,
                    hi,
                ) implies represented(out@, self.nodes@[j]) by {
                let e = entry_for(self.nodes@[j], j);
                assert(rtree_entries(&self.tree).count(e) > 0);
                assert(ids@.contains(e.4));
                let k = choose|k: int| 0 <= k < ids@.len() && ids@[k] == e.4;
                assert(0 <= k < ids@.len() && ids@[k] == e.4);
                assert(node_matches(out@[k], self.nodes@[ids@[k] as int]));
                assert(ids@[k] as int == j);
                assert(node_matches(out@[k], self.nodes@[j]));
                assert(represented(out@, self.nodes@[j]));
            }
        }
        out
    }
}

} // verus!
