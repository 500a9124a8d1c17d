//! No search finds a route twice.

use vstd::prelude::*;

use crate::lightning::graph::{GraphChannel, NodeId};
#[allow(unused_imports)]
use crate::lightning::routing::laws::{lemma_pending_kept, lemma_relaxed_ok, pending_ok};
#[allow(unused_imports)]
use crate::lightning::routing::{
    channel_edges, edges_of, extended, leads_on, least, lemma_least_range,
    lemma_visit_closes_edges, open_edges, relaxed, search, start_trail, trails_between, Edge,
    Hop, Trail, MAX_HOPS,
};

verus! {

/// No two channels have the same id.
pub open spec fn distinct_ids(channels: Seq<GraphChannel>) -> bool {
    forall|i: int, j: int|
        #![trigger channels[i], channels[j]]
        0 <= i < j < channels.len() ==> channels[i].scid != channels[j].scid
}

/// No two trails go over the same hops.
pub open spec fn distinct_paths(trails: Seq<Trail<Seq<Hop>>>) -> bool {
    forall|i: int, j: int|
        #![trigger trails[i], trails[j]]
        0 <= i < j < trails.len() ==> trails[i].path != trails[j].path
}

/// Two edges over one channel go in opposite directions.
spec fn opposite_ways(edges: Seq<Edge>) -> bool {
    forall|i: int, j: int|
        #![trigger edges[i], edges[j]]
        0 <= i < j < edges.len() && edges[i].scid == edges[j].scid ==> edges[i].to == edges[j].from
            && edges[i].from == edges[j].to
}

proof fn lemma_edge_of_channel(channels: Seq<GraphChannel>, amount: u64, k: int)
    requires
        0 <= k < edges_of(channels, amount).len(),
    ensures
        exists|i: int|
            0 <= i < channels.len() && (#[trigger] channels[i]).scid == edges_of(
                channels,
                amount,
            )[k].scid,
    decreases channels.len(),
{
    let front = edges_of(channels.drop_last(), amount);
    let n = channels.len() - 1;
    if k < front.len() {
        lemma_edge_of_channel(channels.drop_last(), amount, k);
        let i = choose|i: int|
            0 <= i < channels.drop_last().len() && (#[trigger] channels.drop_last()[i]).scid
                == front[k].scid;
        assert(channels[i] == channels.drop_last()[i]);
    } else {
        assert(edges_of(channels, amount)[k] == channel_edges(channels.last(), amount)[k
            - front.len()]);
        assert(channels[n].scid == edges_of(channels, amount)[k].scid);
    }
}

proof fn lemma_opposite_ways(channels: Seq<GraphChannel>, amount: u64)
    requires
        distinct_ids(channels),
    ensures
        opposite_ways(edges_of(channels, amount)),
    decreases channels.len(),
{
    if channels.len() > 0 {
        let shorter = channels.drop_last();
        let front = edges_of(shorter, amount);
        let back = channel_edges(channels.last(), amount);
        let edges = edges_of(channels, amount);
        assert(distinct_ids(shorter)) by {
            assert forall|i: int, j: int|
                #![trigger shorter[i], shorter[j]]
                0 <= i < j < shorter.len() implies shorter[i].scid != shorter[j].scid by {
                assert(channels[i].scid != channels[j].scid);
            }
        }
        lemma_opposite_ways(shorter, amount);
        assert forall|i: int, j: int|
            #![trigger edges[i], edges[j]]
            0 <= i < j < edges.len() && edges[i].scid == edges[j].scid implies edges[i].to
            == edges[j].from && edges[i].from == edges[j].to by {
            if j < front.len() {
                assert(edges[i] == front[i]);
                assert(edges[j] == front[j]);
            } else {
                assert(edges[j] == back[j - front.len()]);
                assert(edges[j].scid == channels.last().scid);
                if i < front.len() {
                    assert(edges[i] == front[i]);
                    lemma_edge_of_channel(shorter, amount, i);
                    let c = choose|c: int|
                        0 <= c < shorter.len() && (#[trigger] shorter[c]).scid == front[i].scid;
                    assert(channels[c].scid != channels[channels.len() - 1].scid);
                } else {
                    assert(edges[i] == back[i - front.len()]);
                }
            }
        }
    }
}

/// A continuation of a trail goes over one of the edges.
proof fn lemma_relaxed_over(
    edges: Seq<Edge>,
    t: Trail<Seq<Hop>>,
    visited: Set<NodeId>,
    amount: u64,
    i: int,
)
    requires
        0 <= i < relaxed(edges, t, visited, amount).len(),
    ensures
        exists|k: int|
            0 <= k < edges.len() && leads_on(#[trigger] edges[k], t.node, visited) && relaxed(
                edges,
                t,
                visited,
                amount,
            )[i] == extended(t, edges[k], amount),
    decreases edges.len(),
{
    let front = edges.drop_last();
    let before = relaxed(front, t, visited, amount);
    if i < before.len() {
        lemma_relaxed_over(front, t, visited, amount, i);
        let k = choose|k: int|
            0 <= k < front.len() && leads_on(#[trigger] front[k], t.node, visited) && before[i]
                == extended(t, front[k], amount);
        assert(edges[k] == front[k]);
    } else {
        assert(edges[edges.len() - 1] == edges.last());
    }
}

proof fn lemma_relaxed_distinct(
    edges: Seq<Edge>,
    t: Trail<Seq<Hop>>,
    visited: Set<NodeId>,
    amount: u64,
)
    requires
        opposite_ways(edges),
        visited.contains(t.node),
    ensures
        distinct_paths(relaxed(edges, t, visited, amount)),
    decreases edges.len(),
{
    if edges.len() > 0 {
        let front = edges.drop_last();
        let before = relaxed(front, t, visited, amount);
        let after = relaxed(edges, t, visited, amount);
        assert(opposite_ways(front)) by {
            assert forall|i: int, j: int|
                #![trigger front[i], front[j]]
                0 <= i < j < front.len() && front[i].scid == front[j].scid implies front[i].to
                == front[j].from && front[i].from == front[j].to by {
                assert(edges[i] == front[i]);
                assert(edges[j] == front[j]);
            }
        }
        lemma_relaxed_distinct(front, t, visited, amount);
        assert forall|i: int, j: int|
            #![trigger after[i], after[j]]
            0 <= i < j < after.len() implies after[i].path != after[j].path by {
            assert(after[i] == before[i]);
            if j < before.len() {
                assert(after[j] == before[j]);
            } else {
                lemma_relaxed_over(front, t, visited, amount, i);
                let k = choose|k: int|
                    0 <= k < front.len() && leads_on(#[trigger] front[k], t.node, visited)
                        && before[i] == extended(t, front[k], amount);
                assert(front[k] == edges[k]);
                let last = edges.len() - 1;
                assert(after[j] == extended(t, edges[last], amount));
                assert(after[i].path.last().scid == edges[k].scid);
                assert(after[j].path.last().scid == edges[last].scid);
                if edges[k].scid == edges[last].scid {
                    assert(edges[k].to == edges[last].from);
                }
            }
        }
    }
}

/// A trail whose nodes but the last are visited differs from every
/// continuation of a trail to a node that is not.
proof fn lemma_continuation_is_new(
    edges: Seq<Edge>,
    from: NodeId,
    amount: u64,
    visited: Set<NodeId>,
    t: Trail<Seq<Hop>>,
    e: Edge,
    old_trail: Trail<Seq<Hop>>,
)
    requires
        pending_ok(edges, from, amount, visited, t),
        pending_ok(edges, from, amount, visited, old_trail),
        !visited.contains(t.node),
    ensures
        extended(t, e, amount).path != old_trail.path,
{
    reveal(pending_ok);
    let u = extended(t, e, amount);
    if u.path == old_trail.path {
        let n = t.path.len() as int;
        assert(old_trail.path.len() == n + 1);
        if n > 0 {
            assert(u.path[n - 1] == t.path[n - 1]);
            assert(visited.contains(old_trail.path[n - 1].node));
        }
    }
}

proof fn lemma_search_distinct(
    edges: Seq<Edge>,
    from: NodeId,
    dest: NodeId,
    amount: u64,
    max: nat,
    pending: Seq<Trail<Seq<Hop>>>,
    visited: Set<NodeId>,
    found: Seq<Trail<Seq<Hop>>>,
)
    requires
        opposite_ways(edges),
        search(edges, dest, amount, max, pending, visited, found) is Some,
        forall|i: int|
            0 <= i < pending.len() ==> pending_ok(
                edges,
                from,
                amount,
                visited,
                #[trigger] pending[i],
            ),
        forall|i: int|
            0 <= i < found.len() ==> pending_ok(
                edges,
                from,
                amount,
                visited,
                #[trigger] found[i],
            ),
        distinct_paths(pending),
        distinct_paths(found),
        forall|i: int, j: int|
            #![trigger found[i], pending[j]]
            0 <= i < found.len() && 0 <= j < pending.len() ==> found[i].path != pending[j].path,
    ensures
        distinct_paths(search(edges, dest, amount, max, pending, visited, found)->0),
    decreases open_edges(edges, visited), pending.len(),
{
    if pending.len() > 0 && found.len() < max {
        lemma_least_range(pending);
        let k = least(pending);
        let t = pending[k];
        let rest = pending.remove(k);
        assert forall|i: int| 0 <= i < rest.len() implies #[trigger] rest[i] == pending[if i < k {
            i
        } else {
            i + 1
        }] by {}
        if t.path.len() > MAX_HOPS {
            lemma_search_distinct(edges, from, dest, amount, max, rest, visited, found);
        } else if t.node == dest {
            lemma_search_distinct(edges, from, dest, amount, max, rest, visited, found.push(t));
        } else if visited.contains(t.node) {
            lemma_search_distinct(edges, from, dest, amount, max, rest, visited, found);
        } else {
            let seen = visited.insert(t.node);
            let more = relaxed(edges, t, seen, amount);
            let next = rest + more;
            lemma_visit_closes_edges(edges, visited, t, amount);
            lemma_relaxed_distinct(edges, t, seen, amount);
            assert(edges.take(edges.len() as int) =~= edges);
            lemma_relaxed_ok(edges, edges.len() as int, from, amount, visited, t);
            assert forall|i: int| 0 <= i < next.len() implies pending_ok(
                edges,
                from,
                amount,
                seen,
                #[trigger] next[i],
            ) by {
                if i < rest.len() {
                    lemma_pending_kept(edges, from, amount, visited, t.node, rest[i]);
                } else {
                    assert(next[i] == more[i - rest.len()]);
                }
            }
            assert forall|i: int| 0 <= i < found.len() implies pending_ok(
                edges,
                from,
                amount,
                seen,
                #[trigger] found[i],
            ) by {
                lemma_pending_kept(edges, from, amount, visited, t.node, found[i]);
            }
            assert forall|u: Trail<Seq<Hop>>, j: int|
                #![trigger pending_ok(edges, from, amount, visited, u), more[j]]
                pending_ok(edges, from, amount, visited, u) && 0 <= j < more.len() implies u.path
                != more[j].path by {
                lemma_relaxed_over(edges, t, seen, amount, j);
                let e = choose|e: int|
                    0 <= e < edges.len() && leads_on(#[trigger] edges[e], t.node, seen) && more[j]
                        == extended(t, edges[e], amount);
                lemma_continuation_is_new(edges, from, amount, visited, t, edges[e], u);
            }
            assert forall|i: int, j: int|
                #![trigger next[i], next[j]]
                0 <= i < j < next.len() implies next[i].path != next[j].path by {
                if j >= rest.len() {
                    assert(next[j] == more[j - rest.len()]);
                    if i < rest.len() {
                        assert(pending_ok(edges, from, amount, visited, rest[i]));
                    } else {
                        assert(next[i] == more[i - rest.len()]);
                    }
                } else {
                    assert(next[i] == rest[i]);
                    assert(next[j] == rest[j]);
                }
            }
            assert forall|i: int, j: int|
                #![trigger found[i], next[j]]
                0 <= i < found.len() && 0 <= j < next.len() implies found[i].path
                != next[j].path by {
                if j < rest.len() {
                    assert(next[j] == rest[j]);
                } else {
                    assert(next[j] == more[j - rest.len()]);
                }
            }
            lemma_search_distinct(edges, from, dest, amount, max, next, seen, found);
        }
    }
}

/// Where no two channels have the same id, no two of the routes that a search
/// finds go over the same hops.
pub proof fn found_routes_are_distinct(
    from: NodeId,
    dest: NodeId,
    amount: u64,
    max: nat,
    channels: Seq<GraphChannel>,
)
    requires
        trails_between(from, dest, amount, max, channels) is Some,
        distinct_ids(channels),
    ensures
        distinct_paths(trails_between(from, dest, amount, max, channels)->0),
{
    if from != dest {
        reveal(pending_ok);
        lemma_opposite_ways(channels, amount);
        lemma_search_distinct(
            edges_of(channels, amount),
            from,
            dest,
            amount,
            max,
            seq![start_trail(from)],
            Set::empty(),
            Seq::empty(),
        );
    }
}

} // verus!
