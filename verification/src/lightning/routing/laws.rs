//! What holds of every search for routes.

use vstd::prelude::*;

use crate::lightning::graph::{GraphChannel, NodeId};
#[allow(unused_imports)]
use crate::lightning::routing::rank::{rank_is_a_total_order, rank_trail, Rank};
#[allow(unused_imports)]
use crate::lightning::routing::{
    cost_bounded, edges_of, extended, fee_fits, fees_fit, hop_fee, hop_fee_bound, leads_on, least,
    lemma_hop_fee, lemma_least_range, lemma_visit_closes_edges, open_edges, relaxed, search,
    start_trail, trails_between, Edge, Hop, Trail, MAX_HOPS,
};

verus! {

/// The trail that a search takes up next has no smaller one beside it.
pub proof fn least_has_no_smaller(pending: Seq<Trail<Seq<Hop>>>)
    requires
        pending.len() > 0,
    ensures
        0 <= least(pending) < pending.len(),
        forall|j: int|
            0 <= j < pending.len() ==> rank_trail(#[trigger] pending[j], pending[least(pending)])
                != Rank::Less,
    decreases pending.len(),
{
    if pending.len() > 1 {
        let front = pending.drop_last();
        least_has_no_smaller(front);
        let k = least(front);
        assert forall|j: int| 0 <= j < pending.len() implies rank_trail(
            #[trigger] pending[j],
            pending[least(pending)],
        ) != Rank::Less by {
            if j < pending.len() - 1 {
                assert(front[j] == pending[j]);
            }
            rank_is_a_total_order(pending[j], pending.last(), pending[k]);
            rank_is_a_total_order(pending.last(), pending[k], pending[k]);
        }
    } else {
        rank_is_a_total_order(pending[0], pending[0], pending[0]);
    }
}

/// The node that a path stands at before its step `i`.
pub open spec fn node_before(from: NodeId, path: Seq<Hop>, i: int) -> NodeId {
    if i == 0 {
        from
    } else {
        path[i - 1].node
    }
}

/// The step goes over an edge that leaves `node`, at the fee for it.
pub open spec fn goes_over(edges: Seq<Edge>, amount: u64, node: NodeId, h: Hop) -> bool {
    exists|k: int|
        0 <= k < edges.len() && (#[trigger] edges[k]).from == node && edges[k].to == h.node
            && edges[k].scid == h.scid && edges[k].cltv == h.cltv && h.fee == hop_fee(
            edges[k],
            amount,
        )
}

/// The sum of the fees of a path.
pub open spec fn fee_sum(path: Seq<Hop>) -> int
    decreases path.len(),
{
    if path.len() == 0 {
        0
    } else {
        fee_sum(path.drop_last()) + path.last().fee
    }
}

/// The trail starts at `from`, goes over edges, passes no node twice, and costs
/// what its hops cost.
pub open spec fn is_route(
    edges: Seq<Edge>,
    from: NodeId,
    amount: u64,
    t: Trail<Seq<Hop>>,
) -> bool {
    &&& t.node == node_before(from, t.path, t.path.len() as int)
    &&& forall|i: int|
        #![trigger t.path[i]]
        0 <= i < t.path.len() ==> goes_over(edges, amount, node_before(from, t.path, i), t.path[i])
    &&& forall|i: int| #![trigger t.path[i]] 0 <= i < t.path.len() ==> t.path[i].node != from
    &&& forall|i: int, j: int|
        #![trigger t.path[i], t.path[j]]
        0 <= i < j < t.path.len() ==> t.path[i].node != t.path[j].node
    &&& t.cost == fee_sum(t.path)
}

/// The costs do not decrease along the list.
pub open spec fn cheapest_first(found: Seq<Trail<Seq<Hop>>>) -> bool {
    forall|i: int, j: int|
        #![trigger found[i], found[j]]
        0 <= i <= j < found.len() ==> found[i].cost <= found[j].cost
}

/// What holds of every trail that a search has pending.
#[verifier::opaque]
pub open spec fn pending_ok(
    edges: Seq<Edge>,
    from: NodeId,
    amount: u64,
    visited: Set<NodeId>,
    t: Trail<Seq<Hop>>,
) -> bool {
    &&& is_route(edges, from, amount, t)
    &&& cost_bounded(t)
    &&& t.path.len() > 0 ==> visited.contains(from)
    &&& forall|i: int|
        #![trigger t.path[i]]
        0 <= i < t.path.len() - 1 ==> visited.contains(t.path[i].node)
}

/// What holds of every trail that a search has found.
pub open spec fn found_ok(
    edges: Seq<Edge>,
    from: NodeId,
    dest: NodeId,
    amount: u64,
    t: Trail<Seq<Hop>>,
) -> bool {
    &&& is_route(edges, from, amount, t)
    &&& t.node == dest
    &&& t.path.len() <= MAX_HOPS
}

pub(crate) proof fn lemma_least_cost(pending: Seq<Trail<Seq<Hop>>>)
    requires
        pending.len() > 0,
    ensures
        0 <= least(pending) < pending.len(),
        forall|j: int|
            0 <= j < pending.len() ==> pending[least(pending)].cost <= (
            #[trigger] pending[j]).cost,
    decreases pending.len(),
{
    if pending.len() > 1 {
        let front = pending.drop_last();
        lemma_least_cost(front);
        let k = least(front);
        assert forall|j: int| 0 <= j < pending.len() implies pending[least(pending)].cost <= (
        #[trigger] pending[j]).cost by {
            if j < pending.len() - 1 {
                assert(front[j] == pending[j]);
            }
        }
    }
}

pub(crate) proof fn lemma_pending_kept(
    edges: Seq<Edge>,
    from: NodeId,
    amount: u64,
    visited: Set<NodeId>,
    node: NodeId,
    t: Trail<Seq<Hop>>,
)
    requires
        pending_ok(edges, from, amount, visited, t),
    ensures
        pending_ok(edges, from, amount, visited.insert(node), t),
        is_route(edges, from, amount, t),
        cost_bounded(t),
{
    reveal(pending_ok);
}

proof fn lemma_extended_ok(
    edges: Seq<Edge>,
    from: NodeId,
    amount: u64,
    visited: Set<NodeId>,
    t: Trail<Seq<Hop>>,
    k: int,
)
    requires
        pending_ok(edges, from, amount, visited, t),
        t.path.len() <= MAX_HOPS,
        0 <= k < edges.len(),
        leads_on(edges[k], t.node, visited.insert(t.node)),
        fee_fits(edges[k], amount),
    ensures
        pending_ok(edges, from, amount, visited.insert(t.node), extended(t, edges[k], amount)),
        extended(t, edges[k], amount).cost >= t.cost,
{
    reveal(pending_ok);
    let e = edges[k];
    let u = extended(t, e, amount);
    let n = t.path.len() as int;
    lemma_hop_fee(e, amount);
    assert(n * hop_fee_bound() + hop_fee_bound() == (n + 1) * hop_fee_bound())
        by (nonlinear_arith);
    assert(n * hop_fee_bound() <= MAX_HOPS * hop_fee_bound()) by (nonlinear_arith)
        requires
            n <= MAX_HOPS,
            hop_fee_bound() >= 0,
    ;
    assert(u.path.drop_last() =~= t.path);
    assert forall|i: int| #![trigger u.path[i]] 0 <= i < u.path.len() implies goes_over(
        edges,
        amount,
        node_before(from, u.path, i),
        u.path[i],
    ) by {
        if i < n {
            assert(u.path[i] == t.path[i]);
            assert(node_before(from, u.path, i) == node_before(from, t.path, i));
        } else {
            assert(edges[k].from == node_before(from, u.path, i));
        }
    }
    assert forall|i: int| 0 <= i < n implies #[trigger] u.path[i] == t.path[i] by {}
    assert forall|i: int|
        #![trigger u.path[i]]
        0 <= i < u.path.len() - 1 implies visited.insert(t.node).contains(u.path[i].node) by {
        if i < n - 1 {
            assert(visited.contains(t.path[i].node));
        } else {
            assert(t.path[i].node == t.node);
        }
    }
    assert(visited.insert(t.node).contains(from)) by {
        if n == 0 {
            assert(t.node == from);
        }
    }
    assert forall|i: int, j: int|
        #![trigger u.path[i], u.path[j]]
        0 <= i < j < u.path.len() implies u.path[i].node != u.path[j].node by {
        if j == n {
            assert(visited.insert(t.node).contains(u.path[i].node));
        } else {
            assert(t.path[i].node != t.path[j].node);
        }
    }
}

pub(crate) proof fn lemma_relaxed_ok(
    all: Seq<Edge>,
    n: int,
    from: NodeId,
    amount: u64,
    visited: Set<NodeId>,
    t: Trail<Seq<Hop>>,
)
    requires
        0 <= n <= all.len(),
        pending_ok(all, from, amount, visited, t),
        t.path.len() <= MAX_HOPS,
        fees_fit(all, t, visited.insert(t.node), amount),
    ensures
        forall|i: int|
            #![trigger relaxed(all.take(n), t, visited.insert(t.node), amount)[i]]
            0 <= i < relaxed(all.take(n), t, visited.insert(t.node), amount).len() ==> pending_ok(
                all,
                from,
                amount,
                visited.insert(t.node),
                relaxed(all.take(n), t, visited.insert(t.node), amount)[i],
            ) && relaxed(all.take(n), t, visited.insert(t.node), amount)[i].cost >= t.cost,
    decreases n,
{
    if n > 0 {
        lemma_relaxed_ok(all, n - 1, from, amount, visited, t);
        assert(all.take(n).drop_last() =~= all.take(n - 1));
        let e = all[n - 1];
        if leads_on(e, t.node, visited.insert(t.node)) {
            assert(fee_fits(all[n - 1], amount));
            lemma_extended_ok(all, from, amount, visited, t, n - 1);
        }
        let seen = visited.insert(t.node);
        let shorter = relaxed(all.take(n - 1), t, seen, amount);
        let longer = relaxed(all.take(n), t, seen, amount);
        assert forall|i: int| #![trigger longer[i]] 0 <= i < longer.len() implies pending_ok(
            all,
            from,
            amount,
            seen,
            longer[i],
        ) && longer[i].cost >= t.cost by {
            if i < shorter.len() {
                assert(longer[i] == shorter[i]);
            }
        }
    }
}

proof fn lemma_search(
    edges: Seq<Edge>,
    from: NodeId,
    dest: NodeId,
    amount: u64,
    max: nat,
    pending: Seq<Trail<Seq<Hop>>>,
    visited: Set<NodeId>,
    found: Seq<Trail<Seq<Hop>>>,
)
    requires
        search(edges, dest, amount, max, pending, visited, found) is Some,
        forall|i: int|
            0 <= i < pending.len() ==> pending_ok(
                edges,
                from,
                amount,
                visited,
                #[trigger] pending[i],
            ),
        forall|i: int|
            0 <= i < found.len() ==> found_ok(edges, from, dest, amount, #[trigger] found[i]),
        cheapest_first(found),
        forall|i: int, j: int|
            #![trigger found[i], pending[j]]
            0 <= i < found.len() && 0 <= j < pending.len() ==> found[i].cost <= pending[j].cost,
        found.len() <= max,
    ensures
        ({
            let out = search(edges, dest, amount, max, pending, visited, found)->0;
            &&& out.len() <= max
            &&& cheapest_first(out)
            &&& forall|i: int|
                0 <= i < out.len() ==> found_ok(edges, from, dest, amount, #[trigger] out[i])
        }),
    decreases open_edges(edges, visited), pending.len(),
{
    reveal(pending_ok);
    if pending.len() > 0 && found.len() < max {
        lemma_least_cost(pending);
        let k = least(pending);
        let t = pending[k];
        let rest = pending.remove(k);
        assert(pending_ok(edges, from, amount, visited, t));
        assert forall|i: int| 0 <= i < rest.len() implies pending_ok(
            edges,
            from,
            amount,
            visited,
            #[trigger] rest[i],
        ) && t.cost <= rest[i].cost && (forall|f: int|
            0 <= f < found.len() ==> (#[trigger] found[f]).cost <= rest[i].cost) by {
            let j = if i < k {
                i
            } else {
                i + 1
            };
            assert(rest[i] == pending[j]);
        }
        if t.path.len() > MAX_HOPS {
            lemma_search(edges, from, dest, amount, max, rest, visited, found);
        } else if t.node == dest {
            assert forall|i: int| 0 <= i < found.push(t).len() implies found_ok(
                edges,
                from,
                dest,
                amount,
                #[trigger] found.push(t)[i],
            ) by {
                if i < found.len() {
                    assert(found.push(t)[i] == found[i]);
                }
            }
            assert(cheapest_first(found.push(t))) by {
                assert forall|i: int, j: int|
                    #![trigger found.push(t)[i], found.push(t)[j]]
                    0 <= i <= j < found.push(t).len() implies found.push(t)[i].cost
                    <= found.push(t)[j].cost by {
                    if i < found.len() {
                        assert(found[i].cost <= pending[k].cost);
                    }
                }
            }
            lemma_search(edges, from, dest, amount, max, rest, visited, found.push(t));
        } else if visited.contains(t.node) {
            lemma_search(edges, from, dest, amount, max, rest, visited, found);
        } else {
            let seen = visited.insert(t.node);
            let more = relaxed(edges, t, seen, amount);
            lemma_visit_closes_edges(edges, visited, t, amount);
            assert(edges.take(edges.len() as int) =~= edges);
            lemma_relaxed_ok(edges, edges.len() as int, from, amount, visited, t);
            let next = rest + more;
            assert forall|i: int| 0 <= i < next.len() implies pending_ok(
                edges,
                from,
                amount,
                seen,
                #[trigger] next[i],
            ) && (forall|f: int|
                0 <= f < found.len() ==> (#[trigger] found[f]).cost <= next[i].cost) by {
                if i < rest.len() {
                    assert(next[i] == rest[i]);
                } else {
                    assert(next[i] == more[i - rest.len()]);
                    assert(forall|f: int|
                        0 <= f < found.len() ==> (#[trigger] found[f]).cost <= pending[k].cost);
                }
            }
            lemma_search(edges, from, dest, amount, max, next, seen, found);
        }
    }
}

/// A search finds at most `max` routes, cheapest first. Each starts at `from`,
/// ends at `dest`, goes over at most [`MAX_HOPS`] channels whose policies admit
/// the amount, passes no node twice, and costs the sum of the fees of its hops.
pub proof fn search_finds_routes(
    from: NodeId,
    dest: NodeId,
    amount: u64,
    max: nat,
    channels: Seq<GraphChannel>,
)
    requires
        trails_between(from, dest, amount, max, channels) is Some,
    ensures
        trails_between(from, dest, amount, max, channels)->0.len() <= max,
        cheapest_first(trails_between(from, dest, amount, max, channels)->0),
        forall|i: int|
            0 <= i < trails_between(from, dest, amount, max, channels)->0.len() ==> found_ok(
                edges_of(channels, amount),
                from,
                dest,
                amount,
                #[trigger] (trails_between(from, dest, amount, max, channels)->0)[i],
            ),
{
    reveal(pending_ok);
    if from != dest {
        let edges = edges_of(channels, amount);
        lemma_search(
            edges,
            from,
            dest,
            amount,
            max,
            seq![start_trail(from)],
            Set::empty(),
            Seq::empty(),
        );
    }
}

proof fn lemma_search_ends(
    edges: Seq<Edge>,
    dest: NodeId,
    amount: u64,
    max: nat,
    pending: Seq<Trail<Seq<Hop>>>,
    visited: Set<NodeId>,
    found: Seq<Trail<Seq<Hop>>>,
)
    requires
        forall|k: int| 0 <= k < edges.len() ==> fee_fits(#[trigger] edges[k], amount),
    ensures
        search(edges, dest, amount, max, pending, visited, found) is Some,
    decreases open_edges(edges, visited), pending.len(),
{
    if pending.len() > 0 && found.len() < max {
        lemma_least_range(pending);
        let t = pending[least(pending)];
        let rest = pending.remove(least(pending));
        if t.path.len() > MAX_HOPS {
            lemma_search_ends(edges, dest, amount, max, rest, visited, found);
        } else if t.node == dest {
            lemma_search_ends(edges, dest, amount, max, rest, visited, found.push(t));
        } else if visited.contains(t.node) {
            lemma_search_ends(edges, dest, amount, max, rest, visited, found);
        } else {
            let seen = visited.insert(t.node);
            lemma_visit_closes_edges(edges, visited, t, amount);
            lemma_search_ends(
                edges,
                dest,
                amount,
                max,
                rest + relaxed(edges, t, seen, amount),
                seen,
                found,
            );
        }
    }
}

/// A search comes to an end with a list of routes wherever the fees of all
/// channels that admit the amount fit into 64 bits.
pub proof fn search_ends_where_fees_fit(
    from: NodeId,
    dest: NodeId,
    amount: u64,
    max: nat,
    channels: Seq<GraphChannel>,
)
    requires
        forall|k: int|
            0 <= k < edges_of(channels, amount).len() ==> fee_fits(
                #[trigger] edges_of(channels, amount)[k],
                amount,
            ),
    ensures
        trails_between(from, dest, amount, max, channels) is Some,
{
    if from != dest {
        lemma_search_ends(
            edges_of(channels, amount),
            dest,
            amount,
            max,
            seq![start_trail(from)],
            Set::empty(),
            Seq::empty(),
        );
    }
}

/// Every edge joins two of the given nodes.
pub open spec fn edges_within(edges: Seq<Edge>, nodes: Set<NodeId>) -> bool {
    forall|k: int|
        0 <= k < edges.len() ==> nodes.contains((#[trigger] edges[k]).from) && nodes.contains(
            edges[k].to,
        )
}

/// A trail at `node` is pending that costs at most `cost`.
spec fn offered(pending: Seq<Trail<Seq<Hop>>>, node: NodeId, cost: int) -> bool {
    exists|j: int|
        0 <= j < pending.len() && (#[trigger] pending[j]).node == node && pending[j].cost <= cost
}

/// `node` was visited at `cost` or less, or a trail to it is pending that costs
/// no more.
spec fn settled_or_offered(
    pending: Seq<Trail<Seq<Hop>>>,
    costs: Map<NodeId, int>,
    node: NodeId,
    cost: int,
) -> bool {
    (costs.contains_key(node) && costs[node] <= cost) || offered(pending, node, cost)
}

/// What holds of a search that has found nothing yet: `costs` tells at which
/// cost each node was visited.
#[verifier::opaque]
spec fn frontier_ok(
    edges: Seq<Edge>,
    from: NodeId,
    dest: NodeId,
    amount: u64,
    pending: Seq<Trail<Seq<Hop>>>,
    visited: Set<NodeId>,
    costs: Map<NodeId, int>,
) -> bool {
    &&& costs.dom() == visited
    &&& !visited.contains(dest)
    &&& settled_or_offered(pending, costs, from, 0)
    &&& forall|v: NodeId, j: int|
        #![trigger costs.contains_key(v), pending[j]]
        costs.contains_key(v) && 0 <= j < pending.len() ==> costs[v] <= pending[j].cost
    &&& forall|k: int|
        #![trigger edges[k]]
        0 <= k < edges.len() && costs.contains_key(edges[k].from) ==> settled_or_offered(
            pending,
            costs,
            edges[k].to,
            costs[edges[k].from] + hop_fee(edges[k], amount),
        )
    &&& forall|j: int|
        0 <= j < pending.len() ==> pending_ok(edges, from, amount, visited, #[trigger] pending[j])
}

proof fn lemma_simple_path_is_short(
    edges: Seq<Edge>,
    from: NodeId,
    amount: u64,
    t: Trail<Seq<Hop>>,
    nodes: Set<NodeId>,
)
    requires
        is_route(edges, from, amount, t),
        edges_within(edges, nodes),
        nodes.contains(from),
        nodes.finite(),
    ensures
        t.path.len() < nodes.len(),
{
    let stops = seq![from] + Seq::new(t.path.len(), |i: int| t.path[i].node);
    assert(stops.no_duplicates()) by {
        assert forall|i: int, j: int|
            0 <= i < j < stops.len() implies stops[i] != stops[j] by {
            if i > 0 {
                assert(t.path[i - 1].node != t.path[j - 1].node);
            } else {
                assert(t.path[j - 1].node != from);
            }
        }
    }
    assert(stops.to_set().subset_of(nodes)) by {
        assert forall|n: NodeId| stops.to_set().contains(n) implies nodes.contains(n) by {
            let i = choose|i: int| 0 <= i < stops.len() && stops[i] == n;
            if i > 0 {
                assert(goes_over(edges, amount, node_before(from, t.path, i - 1), t.path[i - 1]));
            }
        }
    }
    stops.unique_seq_to_set();
    vstd::set_lib::lemma_len_subset(stops.to_set(), nodes);
}

pub(crate) proof fn lemma_fee_sum_prefix(path: Seq<Hop>, i: int)
    requires
        0 <= i < path.len(),
    ensures
        fee_sum(path.take(i + 1)) == fee_sum(path.take(i)) + path[i].fee,
{
    assert(path.take(i + 1).drop_last() =~= path.take(i));
}

pub(crate) proof fn lemma_fee_sum_grows(path: Seq<Hop>, i: int)
    requires
        0 <= i <= path.len(),
    ensures
        fee_sum(path.take(i)) <= fee_sum(path),
    decreases path.len() - i,
{
    if i == path.len() {
        assert(path.take(i) =~= path);
    } else {
        lemma_fee_sum_prefix(path, i);
        lemma_fee_sum_grows(path, i + 1);
    }
}

/// Along a route, every node is settled at what the route costs up to it, or a
/// pending trail costs no more than the whole route.
proof fn lemma_route_meets_frontier(
    edges: Seq<Edge>,
    from: NodeId,
    dest: NodeId,
    amount: u64,
    pending: Seq<Trail<Seq<Hop>>>,
    visited: Set<NodeId>,
    costs: Map<NodeId, int>,
    r: Trail<Seq<Hop>>,
    i: int,
)
    requires
        frontier_ok(edges, from, dest, amount, pending, visited, costs),
        is_route(edges, from, amount, r),
        0 <= i <= r.path.len(),
    ensures
        ({
            let node = node_before(from, r.path, i);
            ||| costs.contains_key(node) && costs[node] <= fee_sum(r.path.take(i))
            ||| exists|j: int| 0 <= j < pending.len() && (#[trigger] pending[j]).cost <= r.cost
        }),
    decreases i,
{
    reveal(frontier_ok);
    lemma_fee_sum_grows(r.path, i);
    if i == 0 {
        assert(r.path.take(0) =~= Seq::empty());
        if !(costs.contains_key(from) && costs[from] <= 0) {
            assert(offered(pending, from, 0));
            let j = choose|j: int|
                0 <= j < pending.len() && (#[trigger] pending[j]).node == from && pending[j].cost
                    <= 0;
            assert(pending[j].cost <= r.cost);
        }
    } else {
        lemma_route_meets_frontier(
            edges,
            from,
            dest,
            amount,
            pending,
            visited,
            costs,
            r,
            i - 1,
        );
        let prev = node_before(from, r.path, i - 1);
        let node = node_before(from, r.path, i);
        lemma_fee_sum_prefix(r.path, i - 1);
        if costs.contains_key(prev) && costs[prev] <= fee_sum(r.path.take(i - 1)) {
            let h = r.path[i - 1];
            assert(goes_over(edges, amount, prev, h));
            let k = choose|k: int|
                0 <= k < edges.len() && (#[trigger] edges[k]).from == prev && edges[k].to == h.node
                    && edges[k].scid == h.scid && edges[k].cltv == h.cltv && h.fee == hop_fee(
                    edges[k],
                    amount,
                );
            let c = costs[prev] + hop_fee(edges[k], amount);
            assert(settled_or_offered(pending, costs, node, c));
            if !(costs.contains_key(node) && costs[node] <= c) {
                let j = choose|j: int|
                    0 <= j < pending.len() && (#[trigger] pending[j]).node == node
                        && pending[j].cost <= c;
                assert(pending[j].cost <= r.cost);
            }
        }
    }
}

pub(crate) proof fn lemma_relaxed_has(
    edges: Seq<Edge>,
    t: Trail<Seq<Hop>>,
    visited: Set<NodeId>,
    amount: u64,
    k: int,
)
    requires
        0 <= k < edges.len(),
        leads_on(edges[k], t.node, visited),
    ensures
        relaxed(edges, t, visited, amount).contains(extended(t, edges[k], amount)),
    decreases edges.len(),
{
    let before = relaxed(edges.drop_last(), t, visited, amount);
    let after = relaxed(edges, t, visited, amount);
    if k == edges.len() - 1 {
        assert(after[before.len() as int] == extended(t, edges[k], amount));
    } else {
        assert(edges.drop_last()[k] == edges[k]);
        lemma_relaxed_has(edges.drop_last(), t, visited, amount, k);
        let i = choose|i: int| 0 <= i < before.len() && before[i] == extended(t, edges[k], amount);
        assert(after[i] == before[i]);
    }
}

pub(crate) proof fn lemma_search_keeps_found(
    edges: Seq<Edge>,
    dest: NodeId,
    amount: u64,
    max: nat,
    pending: Seq<Trail<Seq<Hop>>>,
    visited: Set<NodeId>,
    found: Seq<Trail<Seq<Hop>>>,
)
    requires
        found.len() > 0,
        search(edges, dest, amount, max, pending, visited, found) is Some,
    ensures
        search(edges, dest, amount, max, pending, visited, found)->0.len() > 0,
        (search(edges, dest, amount, max, pending, visited, found)->0)[0] == found[0],
    decreases open_edges(edges, visited), pending.len(),
{
    if pending.len() > 0 && found.len() < max {
        lemma_least_range(pending);
        let t = pending[least(pending)];
        let rest = pending.remove(least(pending));
        if t.path.len() > MAX_HOPS {
            lemma_search_keeps_found(edges, dest, amount, max, rest, visited, found);
        } else if t.node == dest {
            lemma_search_keeps_found(edges, dest, amount, max, rest, visited, found.push(t));
        } else if visited.contains(t.node) {
            lemma_search_keeps_found(edges, dest, amount, max, rest, visited, found);
        } else {
            let seen = visited.insert(t.node);
            lemma_visit_closes_edges(edges, visited, t, amount);
            lemma_search_keeps_found(
                edges,
                dest,
                amount,
                max,
                rest + relaxed(edges, t, seen, amount),
                seen,
                found,
            );
        }
    }
}

proof fn lemma_offer_kept(
    pending: Seq<Trail<Seq<Hop>>>,
    next: Seq<Trail<Seq<Hop>>>,
    k: int,
    node: NodeId,
    cost: int,
)
    requires
        0 <= k < pending.len(),
        next.len() >= pending.len() - 1,
        next.take(pending.len() - 1) == pending.remove(k),
        offered(pending, node, cost),
        pending[k].node != node,
    ensures
        offered(next, node, cost),
{
    let j = choose|j: int|
        0 <= j < pending.len() && (#[trigger] pending[j]).node == node && pending[j].cost <= cost;
    let i = if j < k {
        j
    } else {
        j - 1
    };
    assert(pending.remove(k)[i] == pending[j]);
    assert(next.take(pending.len() - 1)[i] == next[i]);
    assert(next[i].node == node);
}

/// A step that drops a trail to a visited node keeps the frontier.
proof fn lemma_frontier_drop(
    edges: Seq<Edge>,
    from: NodeId,
    dest: NodeId,
    amount: u64,
    pending: Seq<Trail<Seq<Hop>>>,
    visited: Set<NodeId>,
    costs: Map<NodeId, int>,
    k: int,
)
    requires
        frontier_ok(edges, from, dest, amount, pending, visited, costs),
        0 <= k < pending.len(),
        visited.contains(pending[k].node),
        forall|j: int| 0 <= j < pending.len() ==> pending[k].cost <= (#[trigger] pending[j]).cost,
    ensures
        frontier_ok(edges, from, dest, amount, pending.remove(k), visited, costs),
{
    reveal(frontier_ok);
    let rest = pending.remove(k);
    let u = pending[k].node;
    assert(costs.contains_key(u));
    assert(rest.take(pending.len() - 1) =~= rest);
    assert forall|node: NodeId, cost: int|
        settled_or_offered(pending, costs, node, cost) implies #[trigger] settled_or_offered(
        rest,
        costs,
        node,
        cost,
    ) by {
        if !(costs.contains_key(node) && costs[node] <= cost) {
            if node == u {
                let j = choose|j: int|
                    0 <= j < pending.len() && (#[trigger] pending[j]).node == node
                        && pending[j].cost <= cost;
                assert(costs[u] <= pending[j].cost);
            } else {
                lemma_offer_kept(pending, rest, k, node, cost);
            }
        }
    }
    assert forall|j: int| 0 <= j < rest.len() implies pending_ok(
        edges,
        from,
        amount,
        visited,
        #[trigger] rest[j],
    ) && rest[j] == pending[if j < k {
        j
    } else {
        j + 1
    }] by {}
    assert forall|v: NodeId, j: int|
        #![trigger costs.contains_key(v), rest[j]]
        costs.contains_key(v) && 0 <= j < rest.len() implies costs[v] <= rest[j].cost by {
        let i = if j < k {
            j
        } else {
            j + 1
        };
        assert(costs[v] <= pending[i].cost);
    }
}

/// A step that visits a node keeps the frontier.
#[verifier::spinoff_prover]
proof fn lemma_frontier_visit(
    edges: Seq<Edge>,
    from: NodeId,
    dest: NodeId,
    amount: u64,
    pending: Seq<Trail<Seq<Hop>>>,
    visited: Set<NodeId>,
    costs: Map<NodeId, int>,
    k: int,
)
    requires
        frontier_ok(edges, from, dest, amount, pending, visited, costs),
        0 <= k < pending.len(),
        !visited.contains(pending[k].node),
        pending[k].node != dest,
        pending[k].path.len() <= MAX_HOPS,
        forall|j: int| 0 <= j < pending.len() ==> pending[k].cost <= (#[trigger] pending[j]).cost,
        fees_fit(edges, pending[k], visited.insert(pending[k].node), amount),
    ensures
        frontier_ok(
            edges,
            from,
            dest,
            amount,
            pending.remove(k) + relaxed(
                edges,
                pending[k],
                visited.insert(pending[k].node),
                amount,
            ),
            visited.insert(pending[k].node),
            costs.insert(pending[k].node, pending[k].cost as int),
        ),
{
    reveal(frontier_ok);
    let t = pending[k];
    let seen = visited.insert(t.node);
    let rest = pending.remove(k);
    let more = relaxed(edges, t, seen, amount);
    let next = rest + more;
    let now = costs.insert(t.node, t.cost as int);
    assert(pending_ok(edges, from, amount, visited, t));
    assert(now.dom() =~= seen);
    assert(next.take(pending.len() - 1) =~= rest);
    assert(edges.take(edges.len() as int) =~= edges);
    lemma_relaxed_ok(edges, edges.len() as int, from, amount, visited, t);
    assert forall|j: int| 0 <= j < next.len() implies pending_ok(
        edges,
        from,
        amount,
        seen,
        #[trigger] next[j],
    ) && t.cost <= next[j].cost by {
        if j < rest.len() {
            let i = if j < k {
                j
            } else {
                j + 1
            };
            assert(next[j] == pending[i]);
            lemma_pending_kept(edges, from, amount, visited, t.node, pending[i]);
        } else {
            assert(next[j] == more[j - rest.len()]);
        }
    }
    assert forall|node: NodeId, cost: int|
        settled_or_offered(pending, costs, node, cost) implies #[trigger] settled_or_offered(
        next,
        now,
        node,
        cost,
    ) by {
        if costs.contains_key(node) && costs[node] <= cost {
            assert(now[node] <= cost);
        } else if node == t.node {
            let j = choose|j: int|
                0 <= j < pending.len() && (#[trigger] pending[j]).node == node && pending[j].cost
                    <= cost;
            assert(t.cost <= pending[j].cost);
        } else {
            lemma_offer_kept(pending, next, k, node, cost);
        }
    }
    assert forall|v: NodeId, j: int|
        #![trigger now.contains_key(v), next[j]]
        now.contains_key(v) && 0 <= j < next.len() implies now[v] <= next[j].cost by {
        if v != t.node {
            assert(costs.contains_key(v));
            assert(costs[v] <= pending[k].cost);
        }
    }
    assert forall|e: int|
        #![trigger edges[e]]
        0 <= e < edges.len() && now.contains_key(edges[e].from) implies settled_or_offered(
        next,
        now,
        edges[e].to,
        now[edges[e].from] + hop_fee(edges[e], amount),
    ) by {
        let edge = edges[e];
        if edge.from == t.node {
            if seen.contains(edge.to) {
                assert(amount * edge.proportional_millionths >= 0) by (nonlinear_arith);
                if edge.to != t.node {
                    assert(costs.contains_key(edge.to));
                    assert(costs[edge.to] <= pending[k].cost);
                }
            } else {
                lemma_relaxed_has(edges, t, seen, amount, e);
                let i = choose|i: int|
                    0 <= i < more.len() && more[i] == extended(t, edge, amount);
                assert(next[rest.len() + i] == more[i]);
                assert(fee_fits(edges[e], amount));
                lemma_extended_ok(edges, from, amount, visited, t, e);
                lemma_hop_fee(edge, amount);
                lemma_extended_cost(edges, from, amount, visited, t, e);
                assert(next[rest.len() + i].node == edge.to);
            }
        } else {
            assert(costs.contains_key(edge.from));
            assert(settled_or_offered(
                pending,
                costs,
                edge.to,
                costs[edge.from] + hop_fee(edge, amount),
            ));
        }
    }
    assert(settled_or_offered(next, now, from, 0));
}

pub(crate) proof fn lemma_extended_cost(
    edges: Seq<Edge>,
    from: NodeId,
    amount: u64,
    visited: Set<NodeId>,
    t: Trail<Seq<Hop>>,
    k: int,
)
    requires
        pending_ok(edges, from, amount, visited, t),
        t.path.len() <= MAX_HOPS,
        0 <= k < edges.len(),
        fee_fits(edges[k], amount),
    ensures
        extended(t, edges[k], amount).cost == t.cost + hop_fee(edges[k], amount),
{
    reveal(pending_ok);
    let n = t.path.len() as int;
    lemma_hop_fee(edges[k], amount);
    assert(n * hop_fee_bound() <= MAX_HOPS * hop_fee_bound()) by (nonlinear_arith)
        requires
            n <= MAX_HOPS,
            hop_fee_bound() >= 0,
    ;
}

proof fn lemma_search_is_optimal(
    edges: Seq<Edge>,
    from: NodeId,
    dest: NodeId,
    amount: u64,
    max: nat,
    pending: Seq<Trail<Seq<Hop>>>,
    visited: Set<NodeId>,
    costs: Map<NodeId, int>,
    nodes: Set<NodeId>,
    r: Trail<Seq<Hop>>,
)
    requires
        max >= 1,
        search(edges, dest, amount, max, pending, visited, Seq::empty()) is Some,
        frontier_ok(edges, from, dest, amount, pending, visited, costs),
        edges_within(edges, nodes),
        nodes.contains(from),
        nodes.finite(),
        nodes.len() <= MAX_HOPS + 1,
        is_route(edges, from, amount, r),
        r.node == dest,
    ensures
        search(edges, dest, amount, max, pending, visited, Seq::empty())->0.len() > 0,
        (search(edges, dest, amount, max, pending, visited, Seq::empty())->0)[0].cost <= r.cost,
    decreases open_edges(edges, visited), pending.len(),
{
    let none = Seq::<Trail<Seq<Hop>>>::empty();
    let n = r.path.len() as int;
    lemma_route_meets_frontier(edges, from, dest, amount, pending, visited, costs, r, n);
    assert(!costs.contains_key(dest)) by {
        reveal(frontier_ok);
    }
    let j = choose|j: int| 0 <= j < pending.len() && (#[trigger] pending[j]).cost <= r.cost;
    lemma_least_cost(pending);
    let k = least(pending);
    let t = pending[k];
    let rest = pending.remove(k);
    assert(t.cost <= pending[j].cost);
    assert(pending_ok(edges, from, amount, visited, t)) by {
        reveal(frontier_ok);
    }
    lemma_pending_kept(edges, from, amount, visited, t.node, t);
    lemma_simple_path_is_short(edges, from, amount, t, nodes);
    if t.node == dest {
        assert(none.push(t)[0] == t);
        lemma_search_keeps_found(edges, dest, amount, max, rest, visited, none.push(t));
    } else if visited.contains(t.node) {
        lemma_frontier_drop(edges, from, dest, amount, pending, visited, costs, k);
        lemma_search_is_optimal(
            edges,
            from,
            dest,
            amount,
            max,
            rest,
            visited,
            costs,
            nodes,
            r,
        );
    } else {
        let seen = visited.insert(t.node);
        lemma_visit_closes_edges(edges, visited, t, amount);
        lemma_frontier_visit(edges, from, dest, amount, pending, visited, costs, k);
        lemma_search_is_optimal(
            edges,
            from,
            dest,
            amount,
            max,
            rest + relaxed(edges, t, seen, amount),
            seen,
            costs.insert(t.node, t.cost as int),
            nodes,
            r,
        );
    }
}

/// Where the channels that admit the amount join no more than
/// [`MAX_HOPS`]` + 1` nodes, a search for at least one route finds one whenever
/// there is one, and the first that it finds costs no more than any other.
pub proof fn first_route_is_cheapest_among_few_nodes(
    from: NodeId,
    dest: NodeId,
    amount: u64,
    max: nat,
    channels: Seq<GraphChannel>,
    nodes: Set<NodeId>,
    route: Trail<Seq<Hop>>,
)
    requires
        from != dest,
        max >= 1,
        trails_between(from, dest, amount, max, channels) is Some,
        edges_within(edges_of(channels, amount), nodes),
        nodes.contains(from),
        nodes.finite(),
        nodes.len() <= MAX_HOPS + 1,
        is_route(edges_of(channels, amount), from, amount, route),
        route.node == dest,
    ensures
        trails_between(from, dest, amount, max, channels)->0.len() > 0,
        (trails_between(from, dest, amount, max, channels)->0)[0].cost <= route.cost,
{
    reveal(pending_ok);
    reveal(frontier_ok);
    let edges = edges_of(channels, amount);
    let pending = seq![start_trail(from)];
    let costs = Map::<NodeId, int>::empty();
    assert(costs.dom() =~= Set::empty());
    assert(pending[0].node == from);
    assert(offered(pending, from, 0));
    lemma_search_is_optimal(
        edges,
        from,
        dest,
        amount,
        max,
        pending,
        Set::empty(),
        costs,
        nodes,
        route,
    );
}

} // verus!
