//! What a search for routes promises, in terms of the channels of the network.

use vstd::prelude::*;

use crate::lightning::graph::{ChannelPolicy, GraphChannel, NodeId};
use crate::lightning::ldk_service::{FoundRoute, RouteHop};
#[allow(unused_imports)]
use crate::lightning::graph::node_text;
#[allow(unused_imports)]
use crate::lightning::parse::pubkey_parse;
#[allow(unused_imports)]
use crate::lightning::reports::{
    find_routes_between, hop_info, known_channels, lock_sum, route_info,
};
#[allow(unused_imports)]
use crate::lightning::routing::laws::{
    fee_sum, found_ok, goes_over, is_route, lemma_relaxed_has, node_before,
    search_ends_where_fees_fit, search_finds_routes,
};
#[allow(unused_imports)]
use crate::lightning::routing::strict::{first_route_is_cheapest, strictly_cheapest};
#[allow(unused_imports)]
use crate::lightning::routing::{
    channel_edges, edges_of, extended, fee_fits, find_trails, hop_fee, leads_on, least,
    lemma_least_range, lemma_visit_closes_edges, open_edges, policy_edges, relaxed, search,
    start_trail, trails_between,
};
use crate::lightning::routing::{Edge, Hop, Trail};
#[allow(unused_imports)]
use crate::lightning::scid::scid_text;
use crate::lightning::service::LdkService;
#[allow(unused_imports)]
use crate::views::views;

verus! {

/// A hop from `node` goes over the side of a channel that leads from `from` to
/// `to`: the policy for that side admits the amount, and sets the fee and the
/// time lock.
pub open spec fn takes_side(
    policy: Option<ChannelPolicy>,
    from: NodeId,
    to: NodeId,
    amount: u64,
    node: NodeId,
    h: Hop,
) -> bool {
    &&& policy matches Some(p)
    &&& from == node
    &&& to == h.node
    &&& p.htlc_minimum_msat <= amount <= p.htlc_maximum_msat
    &&& h.fee == p.base_msat + amount * p.proportional_millionths / 1_000_000
    &&& h.cltv == p.cltv_expiry_delta
}

/// A hop from `node` goes over a channel, in one direction or the other.
pub open spec fn crosses(c: GraphChannel, amount: u64, node: NodeId, h: Hop) -> bool {
    &&& h.scid == c.scid
    &&& takes_side(c.one_to_two, c.node_one, c.node_two, amount, node, h) || takes_side(
        c.two_to_one,
        c.node_two,
        c.node_one,
        amount,
        node,
        h,
    )
}

/// A hop from `node` goes over one of the channels.
pub open spec fn is_crossed(channels: Seq<GraphChannel>, amount: u64, node: NodeId, h: Hop) -> bool {
    exists|j: int| 0 <= j < channels.len() && crosses(#[trigger] channels[j], amount, node, h)
}

proof fn lemma_goes_over_concat(a: Seq<Edge>, b: Seq<Edge>, amount: u64, node: NodeId, h: Hop)
    ensures
        goes_over(a + b, amount, node, h) <==> goes_over(a, amount, node, h) || goes_over(
            b,
            amount,
            node,
            h,
        ),
{
    if goes_over(a, amount, node, h) {
        let k = choose|k: int|
            0 <= k < a.len() && (#[trigger] a[k]).from == node && a[k].to == h.node && a[k].scid
                == h.scid && a[k].cltv == h.cltv && h.fee == hop_fee(a[k], amount);
        assert((a + b)[k] == a[k]);
    }
    if goes_over(b, amount, node, h) {
        let k = choose|k: int|
            0 <= k < b.len() && (#[trigger] b[k]).from == node && b[k].to == h.node && b[k].scid
                == h.scid && b[k].cltv == h.cltv && h.fee == hop_fee(b[k], amount);
        assert((a + b)[k + a.len()] == b[k]);
    }
    if goes_over(a + b, amount, node, h) {
        let s = a + b;
        let k = choose|k: int|
            0 <= k < s.len() && (#[trigger] s[k]).from == node && s[k].to == h.node && s[k].scid
                == h.scid && s[k].cltv == h.cltv && h.fee == hop_fee(s[k], amount);
        if k < a.len() {
            assert(a[k] == s[k]);
        } else {
            assert(b[k - a.len()] == s[k]);
        }
    }
}

proof fn lemma_goes_over_side(
    policy: Option<ChannelPolicy>,
    from: NodeId,
    to: NodeId,
    scid: u64,
    amount: u64,
    node: NodeId,
    h: Hop,
)
    ensures
        goes_over(policy_edges(policy, from, to, scid, amount), amount, node, h) <==> h.scid == scid
            && takes_side(policy, from, to, amount, node, h),
{
    let edges = policy_edges(policy, from, to, scid, amount);
    if h.scid == scid && takes_side(policy, from, to, amount, node, h) {
        assert(edges[0].from == node);
    }
}

proof fn lemma_goes_over_channels(
    channels: Seq<GraphChannel>,
    amount: u64,
    node: NodeId,
    h: Hop,
)
    ensures
        goes_over(edges_of(channels, amount), amount, node, h) <==> is_crossed(
            channels,
            amount,
            node,
            h,
        ),
    decreases channels.len(),
{
    if channels.len() > 0 {
        let shorter = channels.drop_last();
        let c = channels.last();
        let one = policy_edges(c.one_to_two, c.node_one, c.node_two, c.scid, amount);
        let two = policy_edges(c.two_to_one, c.node_two, c.node_one, c.scid, amount);
        lemma_goes_over_channels(shorter, amount, node, h);
        lemma_goes_over_concat(edges_of(shorter, amount), channel_edges(c, amount), amount, node, h);
        lemma_goes_over_concat(one, two, amount, node, h);
        lemma_goes_over_side(c.one_to_two, c.node_one, c.node_two, c.scid, amount, node, h);
        lemma_goes_over_side(c.two_to_one, c.node_two, c.node_one, c.scid, amount, node, h);
        if is_crossed(shorter, amount, node, h) {
            let j = choose|j: int|
                0 <= j < shorter.len() && crosses(#[trigger] shorter[j], amount, node, h);
            assert(crosses(channels[j], amount, node, h));
        }
        if is_crossed(channels, amount, node, h) {
            let j = choose|j: int|
                0 <= j < channels.len() && crosses(#[trigger] channels[j], amount, node, h);
            if j < shorter.len() {
                assert(crosses(shorter[j], amount, node, h));
            }
        }
        if crosses(c, amount, node, h) {
            assert(crosses(channels[channels.len() - 1], amount, node, h));
        }
    }
}

/// Every hop of a route that a search finds goes over one of the channels in the
/// direction that it is travelled in, under the policy for that direction. No
/// more routes are found than were asked for, each has one to six hops, and ends
/// where it should.
pub proof fn found_hops_cross_channels(
    from: NodeId,
    dest: NodeId,
    amount: u64,
    max: usize,
    channels: Vec<GraphChannel>,
    found: Vec<Trail>,
    i: int,
    k: int,
)
    requires
        call_ensures(find_trails, (from, dest, amount, max, &channels), Some(found)),
        0 <= i < found@.len(),
        0 <= k < found@[i].path@.len(),
    ensures
        exists|j: int|
            0 <= j < channels@.len() && crosses(
                #[trigger] channels@[j],
                amount,
                if k == 0 {
                    from
                } else {
                    found@[i].path@[k - 1].node
                },
                found@[i].path@[k],
            ),
        found@.len() <= max,
        1 <= found@[i].path@.len() <= 6,
        found@[i].path@.last().node == dest,
        found@[i].node == dest,
{
    search_finds_routes(from, dest, amount, max as nat, channels@);
    let all = views(found@);
    assert(all.len() == found@.len());
    assert(all[i] == found@[i]@);
    assert(found_ok(edges_of(channels@, amount), from, dest, amount, all[i]));
    let node = node_before(from, all[i].path, k);
    assert(goes_over(edges_of(channels@, amount), amount, node, all[i].path[k]));
    lemma_goes_over_channels(channels@, amount, node, all[i].path[k]);
}

/// A trail from `from` over the channels: it passes no node twice, and costs what
/// its hops cost.
pub open spec fn is_channel_route(
    channels: Seq<GraphChannel>,
    from: NodeId,
    amount: u64,
    t: Trail<Seq<Hop>>,
) -> bool {
    &&& t.node == node_before(from, t.path, t.path.len() as int)
    &&& forall|i: int|
        #![trigger t.path[i]]
        0 <= i < t.path.len() ==> is_crossed(
            channels,
            amount,
            node_before(from, t.path, i),
            t.path[i],
        )
    &&& forall|i: int| #![trigger t.path[i]] 0 <= i < t.path.len() ==> t.path[i].node != from
    &&& forall|i: int, j: int|
        #![trigger t.path[i], t.path[j]]
        0 <= i < j < t.path.len() ==> t.path[i].node != t.path[j].node
    &&& t.cost == fee_sum(t.path)
}

proof fn lemma_route_over_channels(
    channels: Seq<GraphChannel>,
    from: NodeId,
    amount: u64,
    t: Trail<Seq<Hop>>,
)
    ensures
        is_route(edges_of(channels, amount), from, amount, t) <==> is_channel_route(
            channels,
            from,
            amount,
            t,
        ),
{
    assert forall|i: int| #![trigger t.path[i]] 0 <= i < t.path.len() implies goes_over(
        edges_of(channels, amount),
        amount,
        node_before(from, t.path, i),
        t.path[i],
    ) == is_crossed(channels, amount, node_before(from, t.path, i), t.path[i]) by {
        lemma_goes_over_channels(channels, amount, node_before(from, t.path, i), t.path[i]);
    }
}

/// Where one way to the destination, of at most six hops over the channels, costs
/// less than every other, a search for at least one route finds it first.
pub proof fn cheapest_way_is_found_first(
    from: NodeId,
    dest: NodeId,
    amount: u64,
    max: usize,
    channels: Vec<GraphChannel>,
    found: Vec<Trail>,
    way: Trail<Seq<Hop>>,
)
    requires
        call_ensures(find_trails, (from, dest, amount, max, &channels), Some(found)),
        from != dest,
        max >= 1,
        is_channel_route(channels@, from, amount, way),
        way.node == dest,
        way.path.len() <= 6,
        forall|other: Trail<Seq<Hop>>| #[trigger]
            is_channel_route(channels@, from, amount, other) && other.node == dest && other != way
                ==> way.cost < other.cost,
    ensures
        found@.len() >= 1,
        found@[0].path@ == way.path,
        found@[0].cost == way.cost,
{
    let edges = edges_of(channels@, amount);
    lemma_route_over_channels(channels@, from, amount, way);
    assert forall|s: Trail<Seq<Hop>>| #[trigger]
        is_route(edges, from, amount, s) && s.node == dest && s != way implies way.cost
        < s.cost by {
        lemma_route_over_channels(channels@, from, amount, s);
    }
    assert(strictly_cheapest(edges, from, dest, amount, way));
    first_route_is_cheapest(from, dest, amount, max as nat, channels@, way);
    assert(views(found@).len() == found@.len());
    assert(views(found@)[0] == found@[0]@);
}

/// The routes come cheapest first, and each costs what its hops cost.
pub proof fn cheaper_routes_come_first(
    from: NodeId,
    dest: NodeId,
    amount: u64,
    max: usize,
    channels: Vec<GraphChannel>,
    found: Vec<Trail>,
    i: int,
    j: int,
)
    requires
        call_ensures(find_trails, (from, dest, amount, max, &channels), Some(found)),
        0 <= i <= j < found@.len(),
    ensures
        found@[i].cost <= found@[j].cost,
        found@[i].cost == hop_costs(found@[i].path@),
{
    search_finds_routes(from, dest, amount, max as nat, channels@);
    let all = views(found@);
    assert(all.len() == found@.len());
    assert(all[i] == found@[i]@ && all[j] == found@[j]@);
    assert(found_ok(edges_of(channels@, amount), from, dest, amount, all[i]));
    lemma_hop_costs(found@[i].path@);
}

/// What the hops of a path cost together.
pub open spec fn hop_costs(path: Seq<Hop>) -> int {
    path.fold_left(0int, |sum: int, h: Hop| sum + h.fee)
}

proof fn lemma_hop_costs(path: Seq<Hop>)
    ensures
        hop_costs(path) == fee_sum(path),
    decreases path.len(),
{
    if path.len() > 0 {
        lemma_hop_costs(path.drop_last());
    }
}

proof fn lemma_pending_is_found(
    edges: Seq<Edge>,
    dest: NodeId,
    amount: u64,
    max: nat,
    pending: Seq<Trail<Seq<Hop>>>,
    visited: Set<NodeId>,
    found: Seq<Trail<Seq<Hop>>>,
    wanted: Trail<Seq<Hop>>,
)
    requires
        search(edges, dest, amount, max, pending, visited, found) is Some,
        search(edges, dest, amount, max, pending, visited, found)->0.len() < max,
        pending.contains(wanted) || found.contains(wanted),
        wanted.node == dest,
        wanted.path.len() <= 6,
    ensures
        search(edges, dest, amount, max, pending, visited, found)->0.contains(wanted),
    decreases open_edges(edges, visited), pending.len(),
{
    if pending.len() > 0 && found.len() < max {
        lemma_least_range(pending);
        let k = least(pending);
        let t = pending[k];
        let rest = pending.remove(k);
        if pending.contains(wanted) && t != wanted {
            let j = choose|j: int| 0 <= j < pending.len() && pending[j] == wanted;
            assert(rest[if j < k {
                j
            } else {
                j - 1
            }] == wanted);
        }
        if found.contains(wanted) {
            let j = choose|j: int| 0 <= j < found.len() && found[j] == wanted;
            assert(found.push(t)[j] == wanted);
        }
        assert(found.push(t)[found.len() as int] == t);
        if t.path.len() > crate::lightning::routing::MAX_HOPS {
            lemma_pending_is_found(edges, dest, amount, max, rest, visited, found, wanted);
        } else if t.node == dest {
            lemma_pending_is_found(edges, dest, amount, max, rest, visited, found.push(t), wanted);
        } else if visited.contains(t.node) {
            lemma_pending_is_found(edges, dest, amount, max, rest, visited, found, wanted);
        } else {
            let seen = visited.insert(t.node);
            let more = relaxed(edges, t, seen, amount);
            lemma_visit_closes_edges(edges, visited, t, amount);
            if rest.contains(wanted) {
                let j = choose|j: int| 0 <= j < rest.len() && rest[j] == wanted;
                assert((rest + more)[j] == wanted);
            }
            lemma_pending_is_found(edges, dest, amount, max, rest + more, seen, found, wanted);
        }
    }
}

/// Where fewer routes come back than were asked for, every channel that leads to
/// the destination directly, and admits the amount, is among them.
pub proof fn direct_channels_are_found(
    from: NodeId,
    dest: NodeId,
    amount: u64,
    max: usize,
    channels: Vec<GraphChannel>,
    found: Vec<Trail>,
    j: int,
    h: Hop,
)
    requires
        call_ensures(find_trails, (from, dest, amount, max, &channels), Some(found)),
        from != dest,
        found@.len() < max,
        0 <= j < channels@.len(),
        crosses(channels@[j], amount, from, h),
        h.node == dest,
    ensures
        exists|i: int| 0 <= i < found@.len() && (#[trigger] found@[i]).path@ == seq![h],
{
    let edges = edges_of(channels@, amount);
    let start = start_trail(from);
    let seen = Set::<NodeId>::empty().insert(from);
    let none = Seq::<Trail<Seq<Hop>>>::empty();
    lemma_goes_over_channels(channels@, amount, from, h);
    let k = choose|k: int|
        0 <= k < edges.len() && (#[trigger] edges[k]).from == from && edges[k].to == h.node
            && edges[k].scid == h.scid && edges[k].cltv == h.cltv && h.fee == hop_fee(
            edges[k],
            amount,
        );
    let pending = seq![start];
    assert(least(pending) == 0);
    let rest = pending.remove(0);
    assert(rest =~= none);
    assert(leads_on(edges[k], from, seen));
    lemma_relaxed_has(edges, start, seen, amount, k);
    let next = rest + relaxed(edges, start, seen, amount);
    assert(next =~= relaxed(edges, start, seen, amount));
    let t = extended(start, edges[k], amount);
    assert(next.contains(t));
    assert(t.path =~= seq![h]);
    lemma_visit_closes_edges(edges, Set::empty(), start, amount);
    assert(views(found@).len() == found@.len());
    assert(trails_between(from, dest, amount, max as nat, channels@) == search(
        edges,
        dest,
        amount,
        max as nat,
        next,
        seen,
        none,
    ));
    lemma_pending_is_found(edges, dest, amount, max as nat, next, seen, none, t);
    let i = choose|i: int| 0 <= i < views(found@).len() && views(found@)[i] == t;
    assert(found@[i]@ == t);
}

/// A product of a policy's rate and the amount fits into 64 bits, where there is
/// a policy.
pub open spec fn rate_fits(policy: Option<ChannelPolicy>, amount: u64) -> bool {
    policy matches Some(p) ==> amount * p.proportional_millionths <= u64::MAX
}

proof fn lemma_edges_fit(channels: Seq<GraphChannel>, amount: u64, k: int)
    requires
        forall|j: int|
            #![trigger channels[j]]
            0 <= j < channels.len() ==> rate_fits(channels[j].one_to_two, amount) && rate_fits(
                channels[j].two_to_one,
                amount,
            ),
        0 <= k < edges_of(channels, amount).len(),
    ensures
        fee_fits(edges_of(channels, amount)[k], amount),
    decreases channels.len(),
{
    let shorter = channels.drop_last();
    let front = edges_of(shorter, amount);
    if k < front.len() {
        assert forall|j: int| #![trigger shorter[j]] 0 <= j < shorter.len() implies rate_fits(
            shorter[j].one_to_two,
            amount,
        ) && rate_fits(shorter[j].two_to_one, amount) by {
            assert(shorter[j] == channels[j]);
        }
        lemma_edges_fit(shorter, amount, k);
    } else {
        let c = channels[channels.len() - 1];
        assert(edges_of(channels, amount)[k] == channel_edges(c, amount)[k - front.len()]);
    }
}

/// A search gives up only over a channel whose rate times the amount does not
/// fit into 64 bits.
pub proof fn searches_end_where_rates_fit(
    from: NodeId,
    dest: NodeId,
    amount: u64,
    max: usize,
    channels: Vec<GraphChannel>,
    found: Option<Vec<Trail>>,
)
    requires
        call_ensures(find_trails, (from, dest, amount, max, &channels), found),
        forall|j: int|
            #![trigger channels@[j]]
            0 <= j < channels@.len() ==> rate_fits(channels@[j].one_to_two, amount) && rate_fits(
                channels@[j].two_to_one,
                amount,
            ),
    ensures
        found is Some,
{
    assert forall|k: int| 0 <= k < edges_of(channels@, amount).len() implies fee_fits(
        #[trigger] edges_of(channels@, amount)[k],
        amount,
    ) by {
        lemma_edges_fit(channels@, amount, k);
    }
    search_ends_where_fees_fit(from, dest, amount, max as nat, channels@);
}

/// A told hop goes over one side of a channel: from the node that `before` names
/// to the node that the hop names.
pub open spec fn told_side(
    policy: Option<ChannelPolicy>,
    from: NodeId,
    to: NodeId,
    amount: u64,
    before: Seq<char>,
    hop: RouteHop,
) -> bool {
    &&& policy matches Some(p)
    &&& node_text(from) == before
    &&& node_text(to) == hop.pubkey@
    &&& p.htlc_minimum_msat <= amount <= p.htlc_maximum_msat
    &&& hop.fee == p.base_msat + amount * p.proportional_millionths / 1_000_000
    &&& hop.expiry == p.cltv_expiry_delta
}

/// A told hop goes over a channel, in one direction or the other.
pub open spec fn told_over(
    c: GraphChannel,
    amount: u64,
    before: Seq<char>,
    hop: RouteHop,
) -> bool {
    &&& hop.short_channel_id@ == scid_text(c.scid)
    &&& told_side(c.one_to_two, c.node_one, c.node_two, amount, before, hop) || told_side(
        c.two_to_one,
        c.node_two,
        c.node_one,
        amount,
        before,
        hop,
    )
}

/// What told hops cost together.
pub open spec fn told_costs(hops: Seq<RouteHop>) -> int {
    hops.fold_left(0int, |sum: int, h: RouteHop| sum + h.fee)
}

/// How long told hops lock a payment together.
pub open spec fn told_locks(hops: Seq<RouteHop>) -> int {
    hops.fold_left(0int, |sum: int, h: RouteHop| sum + h.expiry)
}

proof fn lemma_told_sums(hops: Seq<RouteHop>, path: Seq<Hop>)
    requires
        hops.len() == path.len(),
        forall|k: int|
            0 <= k < hops.len() ==> (#[trigger] hops[k]).fee == path[k].fee && hops[k].expiry
                == path[k].cltv,
    ensures
        told_costs(hops) == fee_sum(path),
        told_locks(hops) == lock_sum(path),
        0 <= lock_sum(path) <= path.len() * 0xFFFF,
    decreases hops.len(),
{
    if hops.len() > 0 {
        assert forall|k: int| 0 <= k < hops.drop_last().len() implies (
        #[trigger] hops.drop_last()[k]).fee == path.drop_last()[k].fee && hops.drop_last()[k].expiry
            == path.drop_last()[k].cltv by {
            assert(hops[k].fee == path[k].fee);
        }
        lemma_told_sums(hops.drop_last(), path.drop_last());
        assert(hops[hops.len() - 1].fee == path[hops.len() - 1].fee);
    }
}

proof fn lemma_known_channel(channels: Seq<Option<GraphChannel>>, c: GraphChannel)
    requires
        known_channels(channels).contains(c),
    ensures
        exists|j: int| 0 <= j < channels.len() && #[trigger] channels[j] == Some(c),
    decreases channels.len(),
{
    let k = choose|k: int| 0 <= k < known_channels(channels).len() && known_channels(channels)[k] == c;
    let front = known_channels(channels.drop_last());
    if channels.len() > 0 {
        if k < front.len() {
            assert(front[k] == c);
            lemma_known_channel(channels.drop_last(), c);
            let j = choose|j: int|
                0 <= j < channels.drop_last().len() && #[trigger] channels.drop_last()[j] == Some(c);
            assert(channels[j] == Some(c));
        } else {
            assert(channels[channels.len() - 1] == Some(c));
        }
    }
}

/// No route leads to what is not the key of a node, and where the destination is
/// one the routes are those of the search for it.
pub proof fn routes_lead_to_nodes_only(
    service: LdkService,
    channels: Vec<Option<GraphChannel>>,
    dest: &str,
    amount: u64,
    max: usize,
    out: Option<Vec<FoundRoute>>,
    node: NodeId,
    found: Option<Vec<FoundRoute>>,
)
    requires
        call_ensures(LdkService::find_routes, (&service, &channels, dest, amount, max), out),
        call_ensures(find_routes_between, (service.id(), node, amount, max, &channels), found),
    ensures
        pubkey_parse(dest@) is Err ==> (out matches Some(routes) && routes@.len() == 0),
        pubkey_parse(dest@) matches Ok(n) && n == node ==> {
            &&& out is Some <==> found is Some
            &&& out matches Some(routes) ==> views(routes@) == views(found->0@)
        },
{
    if out is Some {
        assert(views(out->0@).len() == out->0@.len());
    }
}

/// Every route that is told leads to the node that was named, over one to six
/// hops. Each hop goes over a channel that the graph holds, in the direction
/// that is travelled and under the policy for it. The route costs and locks what
/// its hops do together, and no route costs more than one after it.
pub proof fn told_routes_cross_channels(
    service: LdkService,
    channels: Vec<Option<GraphChannel>>,
    dest: &str,
    amount: u64,
    max: usize,
    routes: Vec<FoundRoute>,
    i: int,
    k: int,
)
    requires
        call_ensures(
            LdkService::find_routes,
            (&service, &channels, dest, amount, max),
            Some(routes),
        ),
        0 <= i < routes@.len(),
        0 <= k < routes@[i].hops@.len(),
    ensures
        routes@.len() <= max,
        1 <= routes@[i].hops@.len() <= 6,
        pubkey_parse(dest@) matches Ok(node) && routes@[i].hops@.last().pubkey@ == node_text(node),
        exists|j: int|
            0 <= j < channels@.len() && (#[trigger] channels@[j] matches Some(c) && told_over(
                c,
                amount,
                if k == 0 {
                    node_text(service.id())
                } else {
                    routes@[i].hops@[k - 1].pubkey@
                },
                routes@[i].hops@[k],
            )),
        routes@[i].total_fee == told_costs(routes@[i].hops@),
        routes@[i].total_time_lock == told_locks(routes@[i].hops@),
        forall|j: int|
            i <= j < routes@.len() ==> routes@[i].total_fee <= (#[trigger] routes@[j]).total_fee,
{
    assert(views(routes@).len() == routes@.len());
    assert(views(routes@)[i] == routes@[i]@);
    assert(pubkey_parse(dest@) is Ok);
    let from = service.id();
    let node = pubkey_parse(dest@)->Ok_0;
    let known = known_channels(channels@);
    let trails = trails_between(from, node, amount, max as nat, known)->0;
    assert(trails.map_values(|t: Trail<Seq<Hop>>| route_info(t)) == views(routes@));
    search_finds_routes(from, node, amount, max as nat, known);
    let t = trails[i];
    assert(found_ok(edges_of(known, amount), from, node, amount, t));
    assert(routes@[i]@ == route_info(t));
    let hops = routes@[i].hops@;
    assert(views(hops) == t.path.map_values(|h: Hop| hop_info(h)));
    assert(views(hops).len() == hops.len());
    assert forall|m: int| 0 <= m < hops.len() implies (#[trigger] hops[m])@ == hop_info(
        t.path[m],
    ) by {
        assert(views(hops)[m] == hops[m]@);
    }
    lemma_told_sums(hops, t.path);
    let before = node_before(from, t.path, k);
    assert(goes_over(edges_of(known, amount), amount, before, t.path[k]));
    lemma_goes_over_channels(known, amount, before, t.path[k]);
    let j = choose|j: int|
        0 <= j < known.len() && crosses(#[trigger] known[j], amount, before, t.path[k]);
    assert(known.contains(known[j]));
    lemma_known_channel(channels@, known[j]);
    let m = choose|m: int| 0 <= m < channels@.len() && #[trigger] channels@[m] == Some(known[j]);
    if k > 0 {
        assert(hops[k - 1]@ == hop_info(t.path[k - 1]));
    }
    assert(hops[k]@ == hop_info(t.path[k]));
    assert(told_over(known[j], amount, if k == 0 {
        node_text(service.id())
    } else {
        hops[k - 1].pubkey@
    }, hops[k]));
    assert(channels@[m] matches Some(c) && told_over(
        c,
        amount,
        if k == 0 {
            node_text(service.id())
        } else {
            hops[k - 1].pubkey@
        },
        hops[k],
    ));
    assert(hops.last()@ == hop_info(t.path.last()));
    assert forall|j: int| i <= j < routes@.len() implies routes@[i].total_fee <= (
    #[trigger] routes@[j]).total_fee by {
        assert(views(routes@)[j] == routes@[j]@);
        assert(routes@[j]@ == route_info(trails[j]));
    }
}

} // verus!
