//! A route that is cheaper than all others is found first.

use vstd::prelude::*;

use crate::lightning::graph::{GraphChannel, NodeId};
#[allow(unused_imports)]
use crate::lightning::routing::laws::{
    fee_sum, goes_over, is_route, lemma_extended_cost, lemma_fee_sum_grows, lemma_fee_sum_prefix,
    lemma_least_cost, lemma_pending_kept, lemma_relaxed_has, lemma_relaxed_ok,
    lemma_search_keeps_found, node_before, pending_ok,
};
#[allow(unused_imports)]
use crate::lightning::routing::{
    edges_of, extended, fees_fit, hop_fee, leads_on, least, lemma_visit_closes_edges, open_edges,
    relaxed, search, start_trail, trails_between, Edge, Hop, Trail, MAX_HOPS,
};

verus! {

/// Every other route to `dest` costs more.
pub open spec fn strictly_cheapest(
    edges: Seq<Edge>,
    from: NodeId,
    dest: NodeId,
    amount: u64,
    r: Trail<Seq<Hop>>,
) -> bool {
    &&& is_route(edges, from, amount, r)
    &&& r.node == dest
    &&& forall|s: Trail<Seq<Hop>>| #[trigger]
        is_route(edges, from, amount, s) && s.node == dest && s != r ==> r.cost < s.cost
}

/// The first `i` hops of a route.
spec fn part(from: NodeId, r: Trail<Seq<Hop>>, i: int) -> Trail<Seq<Hop>> {
    Trail {
        cost: fee_sum(r.path.take(i)) as u64,
        node: node_before(from, r.path, i),
        path: r.path.take(i),
    }
}

proof fn lemma_fee_sum_positive(path: Seq<Hop>)
    ensures
        fee_sum(path) >= 0,
    decreases path.len(),
{
    if path.len() > 0 {
        lemma_fee_sum_positive(path.drop_last());
    }
}

proof fn lemma_fee_sum_concat(a: Seq<Hop>, b: Seq<Hop>)
    ensures
        fee_sum(a + b) == fee_sum(a) + fee_sum(b),
    decreases b.len(),
{
    if b.len() == 0 {
        assert(a + b =~= a);
    } else {
        lemma_fee_sum_concat(a, b.drop_last());
        assert((a + b).drop_last() =~= a + b.drop_last());
        assert((a + b).last() == b.last());
    }
}

proof fn lemma_fee_sum_longer(path: Seq<Hop>, i: int, j: int)
    requires
        0 <= i <= j <= path.len(),
    ensures
        fee_sum(path.take(i)) <= fee_sum(path.take(j)),
{
    lemma_fee_sum_grows(path.take(j), i);
    assert(path.take(j).take(i) =~= path.take(i));
}

/// A route stands at a node once.
proof fn lemma_stops_distinct(
    edges: Seq<Edge>,
    from: NodeId,
    amount: u64,
    r: Trail<Seq<Hop>>,
    i: int,
    j: int,
)
    requires
        is_route(edges, from, amount, r),
        0 <= i <= r.path.len(),
        0 <= j <= r.path.len(),
        node_before(from, r.path, i) == node_before(from, r.path, j),
    ensures
        i == j,
{
    if i > 0 {
        assert(r.path[i - 1].node != from);
    }
    if j > 0 {
        assert(r.path[j - 1].node != from);
    }
    if i > 0 && j > 0 {
        if i < j {
            assert(r.path[i - 1].node != r.path[j - 1].node);
        } else if j < i {
            assert(r.path[j - 1].node != r.path[i - 1].node);
        }
    }
}

/// Stop `a` of `q` is a stop of `r` at `j` or later.
spec fn joins(from: NodeId, q: Seq<Hop>, r: Seq<Hop>, j: int, a: int) -> bool {
    exists|b: int|
        j <= b <= r.len() && node_before(from, q, a) == #[trigger] node_before(from, r, b)
}

/// The first stop of `q` that is a stop of `r` at `j` or later.
proof fn lemma_first_join(from: NodeId, q: Seq<Hop>, r: Seq<Hop>, j: int, a: int) -> (first: int)
    requires
        0 <= a <= q.len(),
        joins(from, q, r, j, a),
    ensures
        0 <= first <= a,
        joins(from, q, r, j, first),
        forall|c: int| 0 <= c < first ==> !#[trigger] joins(from, q, r, j, c),
    decreases a,
{
    if exists|c: int| 0 <= c < a && #[trigger] joins(from, q, r, j, c) {
        let c = choose|c: int| 0 <= c < a && #[trigger] joins(from, q, r, j, c);
        lemma_first_join(from, q, r, j, c)
    } else {
        a
    }
}

/// Along `q` for `a` hops, and on along `r` from its hop `b`.
spec fn joined(q: Seq<Hop>, r: Seq<Hop>, a: int, b: int) -> Seq<Hop> {
    q.take(a) + r.skip(b)
}

proof fn lemma_joined_hop(
    from: NodeId,
    q: Seq<Hop>,
    r: Seq<Hop>,
    a: int,
    b: int,
    i: int,
)
    requires
        0 <= a <= q.len(),
        0 <= b <= r.len(),
        node_before(from, q, a) == node_before(from, r, b),
        0 <= i < joined(q, r, a, b).len(),
    ensures
        joined(q, r, a, b).len() == a + r.len() - b,
        joined(q, r, a, b)[i] == if i < a {
            q[i]
        } else {
            r[i - a + b]
        },
        node_before(from, joined(q, r, a, b), i) == if i < a {
            node_before(from, q, i)
        } else {
            node_before(from, r, i - a + b)
        },
{
    let path = joined(q, r, a, b);
    if i > 0 {
        if i - 1 < a {
            assert(path[i - 1] == q[i - 1]);
        } else {
            assert(path[i - 1] == r[i - 1 - a + b]);
        }
    }
}

proof fn lemma_joined_nodes(
    edges: Seq<Edge>,
    from: NodeId,
    amount: u64,
    q: Trail<Seq<Hop>>,
    r: Trail<Seq<Hop>>,
    a: int,
    b: int,
    i: int,
    j: int,
)
    requires
        is_route(edges, from, amount, q),
        is_route(edges, from, amount, r),
        0 <= a <= q.path.len(),
        0 <= b <= r.path.len(),
        node_before(from, q.path, a) == node_before(from, r.path, b),
        forall|c: int| 0 <= c < a ==> !#[trigger] joins(from, q.path, r.path, b, c),
        0 <= i < j < joined(q.path, r.path, a, b).len(),
    ensures
        joined(q.path, r.path, a, b)[i].node != joined(q.path, r.path, a, b)[j].node,
{
    lemma_joined_hop(from, q.path, r.path, a, b, i);
    lemma_joined_hop(from, q.path, r.path, a, b, j);
    if j < a {
        assert(q.path[i].node != q.path[j].node);
    } else {
        let m = j - a + b;
        assert(node_before(from, r.path, m + 1) == r.path[m].node);
        if i >= a {
            assert(r.path[i - a + b].node != r.path[m].node);
        } else {
            assert(node_before(from, q.path, i + 1) == q.path[i].node);
            if q.path[i].node == r.path[m].node {
                if i + 1 < a {
                    assert(joins(from, q.path, r.path, b, i + 1));
                } else {
                    lemma_stops_distinct(edges, from, amount, r, b, m + 1);
                }
            }
        }
    }
}

/// Stop `a` of `q` is stop `b` of `r`, and no earlier stop of `q` is a later
/// stop of `r`: going along `q` up to there and on along `r` is a route.
proof fn lemma_joined_route(
    edges: Seq<Edge>,
    from: NodeId,
    amount: u64,
    q: Trail<Seq<Hop>>,
    r: Trail<Seq<Hop>>,
    a: int,
    b: int,
)
    requires
        is_route(edges, from, amount, q),
        is_route(edges, from, amount, r),
        0 <= a <= q.path.len(),
        0 <= b <= r.path.len(),
        node_before(from, q.path, a) == node_before(from, r.path, b),
        forall|c: int| 0 <= c < a ==> !#[trigger] joins(from, q.path, r.path, b, c),
        fee_sum(q.path.take(a)) <= fee_sum(r.path.take(b)),
    ensures
        ({
            let path = joined(q.path, r.path, a, b);
            let s = Trail { cost: fee_sum(path) as u64, node: r.node, path };
            is_route(edges, from, amount, s) && s.cost <= r.cost
        }),
{
    let path = joined(q.path, r.path, a, b);
    let s = Trail { cost: fee_sum(path) as u64, node: r.node, path };
    assert(s.cost == fee_sum(path) && s.cost <= r.cost) by {
        lemma_fee_sum_concat(q.path.take(a), r.path.skip(b));
        lemma_fee_sum_concat(r.path.take(b), r.path.skip(b));
        lemma_fee_sum_positive(path);
        assert(r.path.take(b) + r.path.skip(b) =~= r.path);
    }
    assert(s.node == node_before(from, path, path.len() as int)) by {
        if path.len() > 0 {
            lemma_joined_hop(from, q.path, r.path, a, b, path.len() - 1);
        }
    }
    assert forall|i: int| #![trigger path[i]] 0 <= i < path.len() implies goes_over(
        edges,
        amount,
        node_before(from, path, i),
        path[i],
    ) && path[i].node != from by {
        lemma_joined_hop(from, q.path, r.path, a, b, i);
        if i < a {
            assert(goes_over(edges, amount, node_before(from, q.path, i), q.path[i]));
        } else {
            let m = i - a + b;
            assert(goes_over(edges, amount, node_before(from, r.path, m), r.path[m]));
        }
    }
    assert forall|i: int, j: int|
        #![trigger path[i], path[j]]
        0 <= i < j < path.len() implies path[i].node != path[j].node by {
        lemma_joined_nodes(edges, from, amount, q, r, a, b, i, j);
    }
}

/// Under a strictly cheapest route, no other route to one of its nodes costs as
/// little as its own way there.
proof fn lemma_part_is_cheapest(
    edges: Seq<Edge>,
    from: NodeId,
    dest: NodeId,
    amount: u64,
    r: Trail<Seq<Hop>>,
    j: int,
    q: Trail<Seq<Hop>>,
)
    requires
        strictly_cheapest(edges, from, dest, amount, r),
        0 <= j <= r.path.len(),
        is_route(edges, from, amount, q),
        q.node == node_before(from, r.path, j),
        q.cost <= fee_sum(r.path.take(j)),
    ensures
        q.path == r.path.take(j),
{
    if q.path != r.path.take(j) {
        let n = q.path.len() as int;
        assert(joins(from, q.path, r.path, j, n));
        let a = lemma_first_join(from, q.path, r.path, j, n);
        let b = choose|b: int|
            j <= b <= r.path.len() && node_before(from, q.path, a) == #[trigger] node_before(
                from,
                r.path,
                b,
            );
        lemma_fee_sum_grows(q.path, a);
        lemma_fee_sum_longer(r.path, j, b);
        assert forall|c: int| 0 <= c < a implies !#[trigger] joins(
            from,
            q.path,
            r.path,
            b,
            c,
        ) by {
            assert(!joins(from, q.path, r.path, j, c));
        }
        lemma_joined_route(edges, from, amount, q, r, a, b);
        let path = joined(q.path, r.path, a, b);
        let s = Trail { cost: fee_sum(path) as u64, node: r.node, path };
        assert(s == r);
        assert(a == b);
        assert(q.path.take(a) =~= r.path.take(b)) by {
            assert forall|i: int| 0 <= i < a implies q.path.take(a)[i] == r.path.take(b)[i] by {
                assert(path[i] == q.path[i]);
            }
        }
        if b > j {
            assert(node_before(from, q.path, j) == node_before(from, r.path, j)) by {
                if j > 0 {
                    assert(q.path.take(a)[j - 1] == r.path.take(b)[j - 1]);
                }
            }
            assert(joins(from, q.path, r.path, j, j));
        } else {
            lemma_stops_distinct(edges, from, amount, q, a, n);
            assert(q.path.take(a) =~= q.path);
        }
    }
}

/// What holds until a search comes to the end of the route: some first part of
/// it is pending, and no node from there on is visited.
spec fn under_way(
    from: NodeId,
    pending: Seq<Trail<Seq<Hop>>>,
    visited: Set<NodeId>,
    r: Trail<Seq<Hop>>,
    i: int,
) -> bool {
    &&& 0 <= i <= r.path.len()
    &&& pending.contains(part(from, r, i))
    &&& forall|j: int|
        i <= j <= r.path.len() ==> !visited.contains(#[trigger] node_before(from, r.path, j))
}

proof fn lemma_stays_pending(
    pending: Seq<Trail<Seq<Hop>>>,
    more: Seq<Trail<Seq<Hop>>>,
    k: int,
    u: Trail<Seq<Hop>>,
)
    requires
        0 <= k < pending.len(),
        pending.contains(u),
        pending[k] != u,
    ensures
        pending.remove(k).contains(u),
        (pending.remove(k) + more).contains(u),
{
    let j = choose|j: int| 0 <= j < pending.len() && pending[j] == u;
    let i = if j < k {
        j
    } else {
        j - 1
    };
    assert(pending.remove(k)[i] == u);
    assert((pending.remove(k) + more)[i] == u);
}

/// A route to a node of the rest of `r` that is taken up before the next part
/// of `r` is that part.
proof fn lemma_taken_in_time(
    edges: Seq<Edge>,
    from: NodeId,
    dest: NodeId,
    amount: u64,
    pending: Seq<Trail<Seq<Hop>>>,
    visited: Set<NodeId>,
    r: Trail<Seq<Hop>>,
    i: int,
    t: Trail<Seq<Hop>>,
    j: int,
)
    requires
        strictly_cheapest(edges, from, dest, amount, r),
        under_way(from, pending, visited, r, i),
        pending_ok(edges, from, amount, visited, t),
        t.cost <= fee_sum(r.path.take(i)),
        i <= j <= r.path.len(),
        t.node == node_before(from, r.path, j),
    ensures
        t == part(from, r, i),
{
    lemma_pending_kept(edges, from, amount, visited, t.node, t);
    lemma_fee_sum_longer(r.path, i, j);
    lemma_part_is_cheapest(edges, from, dest, amount, r, j, t);
    if j > i {
        reveal(pending_ok);
        assert(!visited.contains(node_before(from, r.path, i)));
        if i > 0 {
            assert(t.path[i - 1] == r.path[i - 1]);
        }
    }
}

/// The part of a route one hop longer continues the part before it.
proof fn lemma_next_part(
    edges: Seq<Edge>,
    from: NodeId,
    amount: u64,
    visited: Set<NodeId>,
    r: Trail<Seq<Hop>>,
    i: int,
)
    requires
        is_route(edges, from, amount, r),
        0 <= i < r.path.len(),
        i <= MAX_HOPS,
        pending_ok(edges, from, amount, visited, part(from, r, i)),
        !visited.contains(node_before(from, r.path, i + 1)),
        fees_fit(edges, part(from, r, i), visited.insert(part(from, r, i).node), amount),
    ensures
        relaxed(
            edges,
            part(from, r, i),
            visited.insert(part(from, r, i).node),
            amount,
        ).contains(part(from, r, i + 1)),
{
    let t = part(from, r, i);
    let h = r.path[i];
    let seen = visited.insert(t.node);
    assert(goes_over(edges, amount, t.node, h));
    let k = choose|k: int|
        0 <= k < edges.len() && (#[trigger] edges[k]).from == t.node && edges[k].to == h.node
            && edges[k].scid == h.scid && edges[k].cltv == h.cltv && h.fee == hop_fee(
            edges[k],
            amount,
        );
    if h.node == t.node {
        lemma_stops_distinct(edges, from, amount, r, i, i + 1);
    }
    assert(leads_on(edges[k], t.node, seen));
    lemma_relaxed_has(edges, t, seen, amount, k);
    lemma_extended_cost(edges, from, amount, visited, t, k);
    lemma_pending_kept(edges, from, amount, visited, t.node, t);
    lemma_fee_sum_prefix(r.path, i);
    let u = extended(t, edges[k], amount);
    assert(u.path =~= r.path.take(i + 1));
    assert(u == part(from, r, i + 1));
}

proof fn lemma_search_meets_route(
    edges: Seq<Edge>,
    from: NodeId,
    dest: NodeId,
    amount: u64,
    max: nat,
    pending: Seq<Trail<Seq<Hop>>>,
    visited: Set<NodeId>,
    r: Trail<Seq<Hop>>,
    i: int,
)
    requires
        max >= 1,
        search(edges, dest, amount, max, pending, visited, Seq::empty()) is Some,
        strictly_cheapest(edges, from, dest, amount, r),
        r.path.len() <= MAX_HOPS,
        forall|j: int|
            0 <= j < pending.len() ==> pending_ok(
                edges,
                from,
                amount,
                visited,
                #[trigger] pending[j],
            ),
        under_way(from, pending, visited, r, i),
    ensures
        search(edges, dest, amount, max, pending, visited, Seq::empty())->0.len() > 0,
        (search(edges, dest, amount, max, pending, visited, Seq::empty())->0)[0] == r,
    decreases open_edges(edges, visited), pending.len(),
{
    let none = Seq::<Trail<Seq<Hop>>>::empty();
    let p = part(from, r, i);
    let n = r.path.len() as int;
    lemma_least_cost(pending);
    let k = least(pending);
    let t = pending[k];
    let rest = pending.remove(k);
    let at = choose|at: int| 0 <= at < pending.len() && pending[at] == p;
    lemma_fee_sum_grows(r.path, i);
    lemma_fee_sum_positive(r.path.take(i));
    assert(t.cost <= pending[at].cost);
    lemma_pending_kept(edges, from, amount, visited, t.node, t);
    assert forall|j: int| 0 <= j < rest.len() implies #[trigger] rest[j] == pending[if j < k {
        j
    } else {
        j + 1
    }] by {}
    if t.path.len() > MAX_HOPS {
        lemma_stays_pending(pending, none, k, p);
        lemma_search_meets_route(edges, from, dest, amount, max, rest, visited, r, i);
    } else if t.node == dest {
        assert(t == r);
        assert(none.push(t)[0] == t);
        lemma_search_keeps_found(edges, dest, amount, max, rest, visited, none.push(t));
    } else if visited.contains(t.node) {
        assert(!visited.contains(node_before(from, r.path, i)));
        lemma_stays_pending(pending, none, k, p);
        lemma_search_meets_route(edges, from, dest, amount, max, rest, visited, r, i);
    } else {
        let seen = visited.insert(t.node);
        let more = relaxed(edges, t, seen, amount);
        let next = rest + more;
        lemma_visit_closes_edges(edges, visited, t, amount);
        assert(edges.take(edges.len() as int) =~= edges);
        lemma_relaxed_ok(edges, edges.len() as int, from, amount, visited, t);
        assert forall|j: int| 0 <= j < next.len() implies pending_ok(
            edges,
            from,
            amount,
            seen,
            #[trigger] next[j],
        ) by {
            if j < rest.len() {
                lemma_pending_kept(edges, from, amount, visited, t.node, rest[j]);
            } else {
                assert(next[j] == more[j - rest.len()]);
            }
        }
        let step = if t == p {
            i + 1
        } else {
            i
        };
        if t == p {
            assert(node_before(from, r.path, n) == dest);
            assert(!visited.contains(node_before(from, r.path, i + 1)));
            lemma_next_part(edges, from, amount, visited, r, i);
            let m = choose|m: int| 0 <= m < more.len() && more[m] == part(from, r, i + 1);
            assert(next[rest.len() + m] == more[m]);
        } else {
            lemma_stays_pending(pending, more, k, p);
        }
        assert forall|j: int| step <= j <= n implies !seen.contains(
            #[trigger] node_before(from, r.path, j),
        ) by {
            if node_before(from, r.path, j) == t.node {
                if t == p {
                    lemma_stops_distinct(edges, from, amount, r, i, j);
                } else {
                    lemma_taken_in_time(
                        edges,
                        from,
                        dest,
                        amount,
                        pending,
                        visited,
                        r,
                        i,
                        t,
                        j,
                    );
                }
            }
        }
        lemma_search_meets_route(edges, from, dest, amount, max, next, seen, r, step);
    }
}

/// Where one route of at most [`MAX_HOPS`] hops costs less than every other, a
/// search for at least one route finds that route first.
pub proof fn first_route_is_cheapest(
    from: NodeId,
    dest: NodeId,
    amount: u64,
    max: nat,
    channels: Seq<GraphChannel>,
    route: Trail<Seq<Hop>>,
)
    requires
        from != dest,
        max >= 1,
        trails_between(from, dest, amount, max, channels) is Some,
        strictly_cheapest(edges_of(channels, amount), from, dest, amount, route),
        route.path.len() <= MAX_HOPS,
    ensures
        trails_between(from, dest, amount, max, channels)->0.len() > 0,
        (trails_between(from, dest, amount, max, channels)->0)[0] == route,
{
    reveal(pending_ok);
    let pending = seq![start_trail(from)];
    assert(route.path.take(0) =~= Seq::empty());
    assert(pending[0] == part(from, route, 0));
    lemma_search_meets_route(
        edges_of(channels, amount),
        from,
        dest,
        amount,
        max,
        pending,
        Set::empty(),
        route,
        0,
    );
}

} // verus!
