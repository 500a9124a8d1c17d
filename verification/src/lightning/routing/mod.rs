//! Cheapest-first search for routes through the network.

use vstd::prelude::*;

use crate::lightning::graph::{same_node, ChannelPolicy, GraphChannel, NodeId};
#[allow(unused_imports)]
use crate::lightning::routing::rank::rank_trail;
use crate::lightning::routing::rank::{compare_trail, Rank};
#[allow(unused_imports)]
use crate::views::{lemma_views_push, views};

pub mod distinct;
pub mod laws;
pub mod rank;
pub mod strict;

verus! {

/// The most hops that a route may have.
pub const MAX_HOPS: usize = 6;

/// A directed way over a channel.
#[derive(Debug, Clone, Copy)]
pub struct Edge {
    pub from: NodeId,
    pub to: NodeId,
    pub scid: u64,
    pub base_msat: u32,
    pub proportional_millionths: u32,
    pub cltv: u16,
}

/// A step that a search has taken.
#[derive(Debug, Clone, Copy)]
pub struct Hop {
    pub node: NodeId,
    pub scid: u64,
    pub fee: u64,
    pub cltv: u16,
}

/// A path that a search has found: to `node`, over the steps of `path`, of
/// type `L`, at `cost`.
#[derive(Debug)]
pub struct Trail<L = Vec<Hop>> {
    pub cost: u64,
    pub node: NodeId,
    pub path: L,
}

impl View for Trail {
    type V = Trail<Seq<Hop>>;

    open spec fn view(&self) -> Trail<Seq<Hop>> {
        Trail { cost: self.cost, node: self.node, path: self.path@ }
    }
}

/// A payment of `amount` millisatoshis may go through under the policy.
pub open spec fn admits(policy: ChannelPolicy, amount: u64) -> bool {
    policy.htlc_minimum_msat <= amount <= policy.htlc_maximum_msat
}

/// The way from one side of a channel to the other, if the policy for it is
/// known and admits the amount.
pub open spec fn policy_edges(
    policy: Option<ChannelPolicy>,
    from: NodeId,
    to: NodeId,
    scid: u64,
    amount: u64,
) -> Seq<Edge> {
    match policy {
        Some(p) => if admits(p, amount) {
            seq![
                Edge {
                    from,
                    to,
                    scid,
                    base_msat: p.base_msat,
                    proportional_millionths: p.proportional_millionths,
                    cltv: p.cltv_expiry_delta,
                },
            ]
        } else {
            Seq::empty()
        },
        None => Seq::empty(),
    }
}

/// The ways over a channel.
pub open spec fn channel_edges(c: GraphChannel, amount: u64) -> Seq<Edge> {
    policy_edges(c.one_to_two, c.node_one, c.node_two, c.scid, amount) + policy_edges(
        c.two_to_one,
        c.node_two,
        c.node_one,
        c.scid,
        amount,
    )
}

/// The ways over all channels.
pub open spec fn edges_of(channels: Seq<GraphChannel>, amount: u64) -> Seq<Edge>
    decreases channels.len(),
{
    if channels.len() == 0 {
        Seq::empty()
    } else {
        edges_of(channels.drop_last(), amount) + channel_edges(channels.last(), amount)
    }
}

/// The product in the fee of a hop fits into 64 bits.
pub open spec fn fee_fits(e: Edge, amount: u64) -> bool {
    amount * e.proportional_millionths <= u64::MAX
}

/// The fee for a hop, in millisatoshis.
pub open spec fn hop_fee(e: Edge, amount: u64) -> int {
    e.base_msat + (amount * e.proportional_millionths) / 1_000_000
}

/// A trail continued over an edge.
pub open spec fn extended(t: Trail<Seq<Hop>>, e: Edge, amount: u64) -> Trail<Seq<Hop>> {
    Trail {
        cost: (t.cost + hop_fee(e, amount)) as u64,
        node: e.to,
        path: t.path.push(
            Hop { node: e.to, scid: e.scid, fee: hop_fee(e, amount) as u64, cltv: e.cltv },
        ),
    }
}

/// The edge leaves `node` for a node that is not in `visited`.
pub open spec fn leads_on(e: Edge, node: NodeId, visited: Set<NodeId>) -> bool {
    e.from == node && !visited.contains(e.to)
}

/// The continuations of a trail over the edges that lead on.
pub open spec fn relaxed(
    edges: Seq<Edge>,
    t: Trail<Seq<Hop>>,
    visited: Set<NodeId>,
    amount: u64,
) -> Seq<Trail<Seq<Hop>>>
    decreases edges.len(),
{
    if edges.len() == 0 {
        Seq::empty()
    } else {
        let before = relaxed(edges.drop_last(), t, visited, amount);
        if leads_on(edges.last(), t.node, visited) {
            before.push(extended(t, edges.last(), amount))
        } else {
            before
        }
    }
}

/// The fees for all hops that continue a trail fit.
pub open spec fn fees_fit(
    edges: Seq<Edge>,
    t: Trail<Seq<Hop>>,
    visited: Set<NodeId>,
    amount: u64,
) -> bool {
    forall|i: int|
        0 <= i < edges.len() && leads_on(#[trigger] edges[i], t.node, visited) ==> fee_fits(
            edges[i],
            amount,
        )
}

/// The place of the least trail, the first of them if there are several.
pub open spec fn least(pending: Seq<Trail<Seq<Hop>>>) -> int
    decreases pending.len(),
{
    if pending.len() <= 1 {
        0
    } else {
        let k = least(pending.drop_last());
        if rank_trail(pending.last(), pending[k]) == Rank::Less {
            pending.len() - 1
        } else {
            k
        }
    }
}

pub proof fn lemma_least_range(pending: Seq<Trail<Seq<Hop>>>)
    requires
        pending.len() > 0,
    ensures
        0 <= least(pending) < pending.len(),
    decreases pending.len(),
{
    if pending.len() > 1 {
        lemma_least_range(pending.drop_last());
    }
}

/// How many edges leave nodes that are not in `visited`.
pub open spec fn open_edges(edges: Seq<Edge>, visited: Set<NodeId>) -> nat
    decreases edges.len(),
{
    if edges.len() == 0 {
        0
    } else {
        open_edges(edges.drop_last(), visited) + if visited.contains(edges.last().from) {
            0nat
        } else {
            1nat
        }
    }
}

pub proof fn lemma_visit_closes_edges(
    edges: Seq<Edge>,
    visited: Set<NodeId>,
    t: Trail<Seq<Hop>>,
    amount: u64,
)
    requires
        !visited.contains(t.node),
    ensures
        open_edges(edges, visited.insert(t.node)) <= open_edges(edges, visited),
        relaxed(edges, t, visited.insert(t.node), amount).len() > 0 ==> open_edges(
            edges,
            visited.insert(t.node),
        ) < open_edges(edges, visited),
    decreases edges.len(),
{
    if edges.len() > 0 {
        lemma_visit_closes_edges(edges.drop_last(), visited, t, amount);
    }
}

/// Takes the least pending trail again and again, until `max` routes to
/// `dest` are found or none is pending. A trail that is too long or comes to a
/// visited node is dropped; one that comes to another node than `dest` is
/// continued over all edges that lead on. `None` if a fee does not fit.
pub open spec fn search(
    edges: Seq<Edge>,
    dest: NodeId,
    amount: u64,
    max: nat,
    pending: Seq<Trail<Seq<Hop>>>,
    visited: Set<NodeId>,
    found: Seq<Trail<Seq<Hop>>>,
) -> Option<Seq<Trail<Seq<Hop>>>>
    decreases open_edges(edges, visited), pending.len(),
    via search_decreases
{
    if pending.len() == 0 || found.len() >= max {
        Some(found)
    } else {
        let t = pending[least(pending)];
        let rest = pending.remove(least(pending));
        if t.path.len() > MAX_HOPS {
            search(edges, dest, amount, max, rest, visited, found)
        } else if t.node == dest {
            search(edges, dest, amount, max, rest, visited, found.push(t))
        } else if visited.contains(t.node) {
            search(edges, dest, amount, max, rest, visited, found)
        } else {
            let seen = visited.insert(t.node);
            if fees_fit(edges, t, seen, amount) {
                search(
                    edges,
                    dest,
                    amount,
                    max,
                    rest + relaxed(edges, t, seen, amount),
                    seen,
                    found,
                )
            } else {
                None
            }
        }
    }
}

#[via_fn]
proof fn search_decreases(
    edges: Seq<Edge>,
    dest: NodeId,
    amount: u64,
    max: nat,
    pending: Seq<Trail<Seq<Hop>>>,
    visited: Set<NodeId>,
    found: Seq<Trail<Seq<Hop>>>,
) {
    if pending.len() > 0 {
        lemma_least_range(pending);
        let t = pending[least(pending)];
        if !visited.contains(t.node) {
            lemma_visit_closes_edges(edges, visited, t, amount);
        }
    }
}

/// The trail that a search starts with.
pub open spec fn start_trail(from: NodeId) -> Trail<Seq<Hop>> {
    Trail { cost: 0, node: from, path: Seq::empty() }
}

/// The trails that a search finds from one node to another.
pub open spec fn trails_between(
    from: NodeId,
    dest: NodeId,
    amount: u64,
    max: nat,
    channels: Seq<GraphChannel>,
) -> Option<Seq<Trail<Seq<Hop>>>> {
    if from == dest {
        Some(Seq::empty())
    } else {
        search(
            edges_of(channels, amount),
            dest,
            amount,
            max,
            seq![start_trail(from)],
            Set::empty(),
            Seq::empty(),
        )
    }
}

fn push_policy_edge(
    edges: &mut Vec<Edge>,
    policy: &Option<ChannelPolicy>,
    from: NodeId,
    to: NodeId,
    scid: u64,
    amount: u64,
)
    ensures
        final(edges)@ == old(edges)@ + policy_edges(*policy, from, to, scid, amount),
{
    match policy {
        Some(p) => {
            if amount >= p.htlc_minimum_msat && amount <= p.htlc_maximum_msat {
                edges.push(
                    Edge {
                        from,
                        to,
                        scid,
                        base_msat: p.base_msat,
                        proportional_millionths: p.proportional_millionths,
                        cltv: p.cltv_expiry_delta,
                    },
                );
            }
        },
        None => {},
    }
    assert(edges@ =~= old(edges)@ + policy_edges(*policy, from, to, scid, amount));
}

fn build_edges(channels: &Vec<GraphChannel>, amount: u64) -> (edges: Vec<Edge>)
    ensures
        edges@ == edges_of(channels@, amount),
{
    let mut edges: Vec<Edge> = Vec::new();
    let mut i: usize = 0;
    while i < channels.len()
        invariant
            i <= channels.len(),
            edges@ == edges_of(channels@.take(i as int), amount),
        decreases channels.len() - i,
    {
        let c: &GraphChannel = &channels[i];
        let ghost before = edges@;
        push_policy_edge(&mut edges, &c.one_to_two, c.node_one, c.node_two, c.scid, amount);
        push_policy_edge(&mut edges, &c.two_to_one, c.node_two, c.node_one, c.scid, amount);
        proof {
            assert(channels@.take(i + 1).drop_last() =~= channels@.take(i as int));
            assert(edges@ =~= before + channel_edges(*c, amount));
        }
        i += 1;
    }
    assert(channels@.take(i as int) =~= channels@);
    edges
}

/// Whether a node is in a list of visited nodes.
fn has_node(visited: &Vec<NodeId>, node: &NodeId) -> (found: bool)
    ensures
        found == visited@.to_set().contains(*node),
{
    let mut i: usize = 0;
    while i < visited.len()
        invariant
            i <= visited.len(),
            forall|k: int| 0 <= k < i ==> visited@[k] != *node,
        decreases visited.len() - i,
    {
        if same_node(&visited[i], node) {
            assert(visited@[i as int] == *node);
            assert(visited@.contains(*node));
            return true;
        }
        i += 1;
    }
    assert(!visited@.contains(*node));
    false
}

fn find_least(pending: &Vec<Trail>) -> (k: usize)
    requires
        pending.len() > 0,
    ensures
        k == least(views(pending@)),
        k < pending.len(),
{
    let ghost all = views(pending@);
    let mut k: usize = 0;
    let mut i: usize = 1;
    while i < pending.len()
        invariant
            all == views(pending@),
            1 <= i <= pending.len(),
            k < i,
            k == least(all.take(i as int)),
        decreases pending.len() - i,
    {
        proof {
            assert(all.take(i + 1).drop_last() =~= all.take(i as int));
            assert(all.take(i + 1).last() == pending@[i as int]@);
            assert(all.take(i + 1)[k as int] == pending@[k as int]@);
        }
        if compare_trail(&pending[i], &pending[k]) == Rank::Less {
            k = i;
        }
        i += 1;
    }
    assert(all.take(i as int) =~= all);
    k
}

/// A bound for the fee of one hop.
pub open spec fn hop_fee_bound() -> int {
    0x1_0000_0000 + u64::MAX / 1_000_000
}

/// The cost of a trail stays under the bound for its hops.
pub open spec fn cost_bounded(t: Trail<Seq<Hop>>) -> bool {
    t.cost <= t.path.len() * hop_fee_bound() && t.path.len() <= MAX_HOPS + 1
}

pub proof fn lemma_hop_fee(e: Edge, amount: u64)
    requires
        fee_fits(e, amount),
    ensures
        0 <= hop_fee(e, amount) <= hop_fee_bound(),
{
    let product = amount * e.proportional_millionths;
    assert(0 <= product) by (nonlinear_arith)
        requires
            product == amount * e.proportional_millionths,
    ;
    assert(product / 1_000_000 <= u64::MAX / 1_000_000) by (nonlinear_arith)
        requires
            0 <= product <= u64::MAX,
    ;
}

/// Continues a trail over all edges that lead on. Returns `false`, with some of
/// the continuations missing, if a fee does not fit.
fn relax(
    pending: &mut Vec<Trail>,
    edges: &Vec<Edge>,
    t: &Trail,
    visited: &Vec<NodeId>,
    amount: u64,
) -> (fits: bool)
    requires
        cost_bounded(t@),
        t.path.len() <= MAX_HOPS,
        forall|i: int| 0 <= i < old(pending).len() ==> cost_bounded(#[trigger] old(pending)@[i]@),
    ensures
        fits == fees_fit(edges@, t@, visited@.to_set(), amount),
        fits ==> views(final(pending)@) == views(old(pending)@) + relaxed(
            edges@,
            t@,
            visited@.to_set(),
            amount,
        ),
        forall|i: int|
            0 <= i < final(pending).len() ==> cost_bounded(#[trigger] final(pending)@[i]@),
{
    let ghost start = views(pending@);
    let ghost seen = visited@.to_set();
    let mut i: usize = 0;
    assert(start =~= start + relaxed(edges@.take(0), t@, seen, amount));
    while i < edges.len()
        invariant
            cost_bounded(t@),
            t.path.len() <= MAX_HOPS,
            seen == visited@.to_set(),
            i <= edges.len(),
            forall|k: int| 0 <= k < pending.len() ==> cost_bounded(#[trigger] pending@[k]@),
            forall|k: int|
                0 <= k < i && leads_on(#[trigger] edges@[k], t.node, seen) ==> fee_fits(
                    edges@[k],
                    amount,
                ),
            views(pending@) == start + relaxed(edges@.take(i as int), t@, seen, amount),
        decreases edges.len() - i,
    {
        let e: Edge = edges[i];
        proof {
            assert(edges@.take(i + 1).drop_last() =~= edges@.take(i as int));
            assert(edges@.take(i + 1).last() == e);
        }
        if same_node(&e.from, &t.node) && !has_node(visited, &e.to) {
            assert(leads_on(edges@[i as int], t.node, seen));
            match amount.checked_mul(e.proportional_millionths as u64) {
                Some(product) => {
                    proof {
                        assert(fee_fits(e, amount));
                        lemma_hop_fee(e, amount);
                        assert(t.path@.len() * hop_fee_bound() + hop_fee_bound() == (t.path@.len()
                            + 1) * hop_fee_bound()) by (nonlinear_arith);
                        assert(t.path@.len() * hop_fee_bound() <= MAX_HOPS * hop_fee_bound())
                            by (nonlinear_arith)
                            requires
                                t.path@.len() <= MAX_HOPS,
                                hop_fee_bound() >= 0,
                        ;
                    }
                    let fee: u64 = e.base_msat as u64 + product / 1_000_000;
                    let mut path: Vec<Hop> = Vec::new();
                    let mut k: usize = 0;
                    while k < t.path.len()
                        invariant
                            k <= t.path.len(),
                            path@ == t.path@.take(k as int),
                        decreases t.path.len() - k,
                    {
                        path.push(t.path[k]);
                        assert(path@ =~= t.path@.take(k + 1));
                        k += 1;
                    }
                    assert(path@ =~= t.path@);
                    path.push(Hop { node: e.to, scid: e.scid, fee, cltv: e.cltv });
                    let next: Trail = Trail { cost: t.cost + fee, node: e.to, path };
                    let ghost before = pending@;
                    pending.push(next);
                    proof {
                        assert(next@ == extended(t@, e, amount));
                        lemma_views_push(before, next);
                        assert(views(pending@) =~= start + relaxed(
                            edges@.take(i + 1),
                            t@,
                            seen,
                            amount,
                        ));
                    }
                },
                None => {
                    assert(!fee_fits(edges@[i as int], amount));
                    return false;
                },
            }
        }
        i += 1;
    }
    assert(edges@.take(i as int) =~= edges@);
    true
}

/// The cheapest-first search for routes from one node to another. `None` if a
/// fee on the way does not fit into 64 bits.
pub fn find_trails(
    from: NodeId,
    dest: NodeId,
    amount: u64,
    max: usize,
    channels: &Vec<GraphChannel>,
) -> (out: Option<Vec<Trail>>)
    ensures
        match out {
            Some(list) => trails_between(from, dest, amount, max as nat, channels@) == Some(
                views(list@),
            ),
            None => trails_between(from, dest, amount, max as nat, channels@) is None,
        },
{
    let mut found: Vec<Trail> = Vec::new();
    assert(views(found@) =~= Seq::empty());
    if same_node(&from, &dest) {
        return Some(found);
    }
    let edges: Vec<Edge> = build_edges(channels, amount);
    let mut visited: Vec<NodeId> = Vec::new();
    let mut pending: Vec<Trail> = Vec::new();
    pending.push(Trail { cost: 0, node: from, path: Vec::new() });
    proof {
        assert(views(pending@) =~= seq![start_trail(from)]);
        assert(visited@.to_set() =~= Set::empty());
    }
    while pending.len() > 0 && found.len() < max
        invariant
            edges@ == edges_of(channels@, amount),
            from != dest,
            forall|i: int| 0 <= i < pending.len() ==> cost_bounded(#[trigger] pending@[i]@),
            trails_between(from, dest, amount, max as nat, channels@) == search(
                edges@,
                dest,
                amount,
                max as nat,
                views(pending@),
                visited@.to_set(),
                views(found@),
            ),
        decreases open_edges(edges@, visited@.to_set()), pending.len(),
    {
        let k: usize = find_least(&pending);
        let ghost before = pending@;
        let t: Trail = pending.remove(k);
        assert(views(pending@) =~= views(before).remove(k as int));
        assert(t@ == views(before)[k as int]);
        if t.path.len() <= MAX_HOPS {
            if same_node(&t.node, &dest) {
                proof {
                    lemma_views_push(found@, t);
                }
                found.push(t);
            } else if !has_node(&visited, &t.node) {
                let ghost unseen = visited@.to_set();
                let ghost old_visited = visited@;
                visited.push(t.node);
                proof {
                    lemma_push_to_set(old_visited, t.node);
                    lemma_visit_closes_edges(edges@, unseen, t@, amount);
                }
                if !relax(&mut pending, &edges, &t, &visited, amount) {
                    return None;
                }
            }
        }
    }
    Some(found)
}

proof fn lemma_push_to_set(s: Seq<NodeId>, n: NodeId)
    ensures
        s.push(n).to_set() == s.to_set().insert(n),
{
    assert forall|m: NodeId| #[trigger]
        s.push(n).to_set().contains(m) == s.to_set().insert(n).contains(m) by {
        if s.contains(m) {
            let i = choose|i: int| 0 <= i < s.len() && s[i] == m;
            assert(s.push(n)[i] == m);
        }
        if m == n {
            assert(s.push(n)[s.len() as int] == m);
        }
        if s.push(n).contains(m) && m != n {
            let i = choose|i: int| 0 <= i < s.push(n).len() && s.push(n)[i] == m;
            assert(s[i] == m);
        }
    }
    assert(s.push(n).to_set() =~= s.to_set().insert(n));
}

} // verus!
