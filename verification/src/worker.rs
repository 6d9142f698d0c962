use vstd::prelude::*;

use crate::index::{
    clone_node, entry_for, entry_intersects, lemma_node_matches_trans, matches_some_intersecting,
    node_matches, query_cell_lo, query_cell_hi, represented, Node, SpatialIndex,
};
use crate::spatial::Region;

verus! {

/// The lifecycle of a query task; it only ever moves forward.
#[derive(Debug, Clone, Copy, PartialEq, Eq, Structural)]
pub enum QueryState {
    Waiting,
    Processing,
    Complete,
}

/// One asynchronous query: its token, its state, the rectangle asked
/// about, and the results recorded so far.
#[derive(Debug)]
pub struct QueryTask {
    pub uuid: u128,
    pub state: QueryState,
    pub region: Region,
    pub results: Vec<Node>,
}

impl QueryTask {
    /// A fresh task waits with no results.
    pub fn new(uuid: u128, region: Region) -> (t: QueryTask)
        ensures
            t.uuid == uuid,
            t.state == QueryState::Waiting,
            t.region == region,
            t.results@.len() == 0,
    {
        QueryTask { uuid, state: QueryState::Waiting, region, results: Vec::new() }
    }

    /// The worker picked the task up.
    pub fn begin_processing(&mut self)
        requires
            old(self).state == QueryState::Waiting,
        ensures
            final(self).state == QueryState::Processing,
            final(self).uuid == old(self).uuid,
            final(self).region == old(self).region,
            final(self).results == old(self).results,
    {
        self.state = QueryState::Processing;
    }

    /// Record one result; everything already recorded stays in place.
    pub fn push_result(&mut self, n: Node)
        requires
            old(self).state == QueryState::Processing,
        ensures
            final(self).state == old(self).state,
            final(self).uuid == old(self).uuid,
            final(self).region == old(self).region,
            final(self).results@ == old(self).results@.push(n),
    {
        self.results.push(n);
    }

    /// The scan finished; the task becomes read-only.
    pub fn complete(&mut self)
        requires
            old(self).state == QueryState::Processing,
        ensures
            final(self).state == QueryState::Complete,
            final(self).uuid == old(self).uuid,
            final(self).region == old(self).region,
            final(self).results == old(self).results,
    {
        self.state = QueryState::Complete;
    }
}

/// Recording a result never disturbs the results already recorded: a
/// reader that saw a prefix of the list sees the same prefix on every
/// later read.
pub proof fn lemma_results_monotone(before: QueryTask, after: QueryTask, n: Node)
    requires
        after.results@ == before.results@.push(n),
    ensures
        after.results@.len() == before.results@.len() + 1,
        forall|i: int|
            0 <= i < before.results@.len() ==> after.results@[i] == before.results@[i],
{
}

/// Process one task against the index, as the worker does: mark it
/// processing, append a clone of every indexed node whose stored cell
/// envelope intersects the task's cell envelope, then mark it
/// complete.  Results already recorded stay in place; every appended
/// result matches such an indexed node, and every such indexed node is
/// represented among the appended results.
#[verifier::rlimit(100)]
#[verifier::spinoff_prover]
pub fn process_task(task: &mut QueryTask, index: &SpatialIndex)
    requires
        old(task).state == QueryState::Waiting,
        index.wf(),
    ensures
        final(task).state == QueryState::Complete,
        final(task).uuid == old(task).uuid,
        final(task).region == old(task).region,
        final(task).results@.len() >= old(task).results@.len(),
        forall|i: int|
            0 <= i < old(task).results@.len() ==> final(task).results@[i] == old(
                task,
            ).results@[i],
        forall|i: int|
            old(task).results@.len() <= i < final(task).results@.len()
                ==> matches_some_intersecting(
                index.nodes@,
                #[trigger] final(task).results@[i],
                query_lo(old(task).region),
                query_hi(old(task).region),
            ),
        forall|j: int|
            0 <= j < index.nodes@.len() && entry_intersects(
                #[trigger] entry_for(index.nodes@[j], j),
                query_lo(old(task).region),
                query_hi(old(task).region),
            ) ==> represented(
                final(task).results@.subrange(
                    old(task).results@.len() as int,
                    final(task).results@.len() as int,
                ),
                index.nodes@[j],
            ),
{
    task.begin_processing();
    let region = task.region;
    let (lo, hi) = query_envelope(region);
    let found = index.query(lo, hi);
    let ghost base = task.results@.len();
    let mut i: usize = 0;
    while i < found.len()
        invariant
            task.state == QueryState::Processing,
            task.uuid == old(task).uuid,
            task.region == old(task).region,
            region == old(task).region,
            i <= found@.len(),
            task.results@.len() == base + i,
            forall|k: int| 0 <= k < base ==> task.results@[k] == old(task).results@[k],
            forall|k: int|
                base <= k < task.results@.len() ==> matches_some_intersecting(
                    index.nodes@,
                    #[trigger] task.results@[k],
                    query_lo(region),
                    query_hi(region),
                ),
            forall|k: int|
                base <= k < task.results@.len() ==> node_matches(
                    #[trigger] task.results@[k],
                    found@[k - base],
                ),
            forall|k: int|
                0 <= k < found@.len() ==> matches_some_intersecting(
                    index.nodes@,
                    #[trigger] found@[k],
                    query_lo(region),
                    query_hi(region),
                ),
            forall|j: int|
                0 <= j < index.nodes@.len() && entry_intersects(
                    #[trigger] entry_for(index.nodes@[j], j),
                    query_lo(region),
                    query_hi(region),
                ) ==> represented(found@, index.nodes@[j]),
        decreases found@.len() - i,
    {
        let copy = clone_node(&found[i]);
        proof {
            let nodes = index.nodes@;
            let qlo = query_lo(region);
            let qhi = query_hi(region);
            assert(matches_some_intersecting(nodes, found@[i as int], qlo, qhi));
            let j = choose|j: int|
                0 <= j < nodes.len() && node_matches(found@[i as int], #[trigger] nodes[j])
                    && entry_intersects(entry_for(nodes[j], j), qlo, qhi);
            lemma_node_matches_trans(copy, found@[i as int], nodes[j]);
            assert(matches_some_intersecting(nodes, copy, qlo, qhi));
        }
        task.push_result(copy);
        i = i + 1;
    }
    task.complete();
    proof {
        let appended = task.results@.subrange(base as int, task.results@.len() as int);
        assert forall|j: int|
            0 <= j < index.nodes@.len() && entry_intersects(
                #[trigger] entry_for(index.nodes@[j], j),
                query_lo(old(task).region),
                query_hi(old(task).region),
            ) implies represented(appended, index.nodes@[j]) by {
            assert(represented(found@, index.nodes@[j]));
            let k = choose|k: int|
                0 <= k < found@.len() && node_matches(#[trigger] found@[k], index.nodes@[j]);
            assert(node_matches(task.results@[base + k], found@[k]));
            lemma_node_matches_trans(task.results@[base + k], found@[k], index.nodes@[j]);
            assert(appended[k] == task.results@[base + k]);
            assert(represented(appended, index.nodes@[j]));
        }
    }
}

/// The south-western corner of a region's cell envelope, as the index
/// keys it.
pub open spec fn query_lo(r: Region) -> crate::spatial::Coordinate {
    (crate::index::envelope_of(r).0, crate::index::envelope_of(r).1)
}

/// The north-eastern corner of a region's cell envelope.
pub open spec fn query_hi(r: Region) -> crate::spatial::Coordinate {
    (crate::index::envelope_of(r).2, crate::index::envelope_of(r).3)
}

/// The normalized unit envelope of a region, ready to hand to the
/// index, whose own grid cover of it is the region's cell envelope.
pub fn query_envelope(region: Region) -> (r: (
    crate::spatial::Coordinate,
    crate::spatial::Coordinate,
))
    ensures
        query_cell_lo(r.0) == query_lo(region),
        query_cell_hi(r.1) == query_hi(region),
        r.0.0 <= r.1.0,
        r.0.1 <= r.1.1,
{
    let (lo_x, hi_x) = if region.top_left.0 <= region.bottom_right.0 {
        (region.top_left.0, region.bottom_right.0)
    } else {
        (region.bottom_right.0, region.top_left.0)
    };
    let (lo_y, hi_y) = if region.bottom_right.1 <= region.top_left.1 {
        (region.bottom_right.1, region.top_left.1)
    } else {
        (region.top_left.1, region.bottom_right.1)
    };
    ((lo_x, lo_y), (hi_x, hi_y))
}

} // verus!
