//! What the service tells of the node's channels and peers, and of the network.

use vstd::prelude::*;

#[allow(unused_imports)]
use crate::lightning::graph::node_text;
use crate::lightning::graph::{same_node, ChannelPolicy, GraphChannel, NodeId};
#[allow(unused_imports)]
use crate::lightning::hex::hex_text;
use crate::lightning::hex::hex_string;
use crate::lightning::ldk_service::{
    FoundRoute, LdkChannelFees, LdkChannelInfo, LdkPeerInfo, LdkServiceError, NetworkChannelInfo,
    NetworkChannelPolicy, NetworkNodeInfo, NetworkStats, RouteHop,
};
use crate::lightning::node::{ChannelDetails, GraphNode, NodeCall, PeerDetails};
#[allow(unused_imports)]
use crate::lightning::parse::pubkey_parse;
use crate::lightning::parse::parse_pubkey;
#[allow(unused_imports)]
use crate::lightning::payments::filtered_payments;
use crate::lightning::payments::{filter_payments, PaymentDetails, PaymentFilter};
#[allow(unused_imports)]
use crate::lightning::routing::laws::search_finds_routes;
#[allow(unused_imports)]
use crate::lightning::routing::{trails_between, MAX_HOPS};
use crate::lightning::routing::{find_trails, Hop, Trail};
#[allow(unused_imports)]
use crate::lightning::scid::{parsed_scid, scid_text};
use crate::lightning::scid::{format_scid, parse_scid};
use crate::lightning::service::LdkService;
#[allow(unused_imports)]
use crate::lightning::service::{CallView, ErrorView};
#[allow(unused_imports)]
use crate::state::page::page;
#[allow(unused_imports)]
use crate::text::{opt_str, opt_text, texts};
use crate::text::{copy_text, copy_texts, join, same_text};
#[allow(unused_imports)]
use crate::views::{lemma_views_push, result_view, views};

verus! {

/// The text of a short channel id, if there is one.
pub open spec fn opt_scid(scid: Option<u64>) -> Option<Seq<char>> {
    match scid {
        Some(n) => Some(scid_text(n)),
        None => None,
    }
}

fn scid_if_any(scid: Option<u64>) -> (out: Option<String>)
    ensures
        opt_text(out) == opt_scid(scid),
{
    match scid {
        Some(n) => Some(format_scid(n)),
        None => None,
    }
}

/// The word for the state of a channel.
pub open spec fn channel_state(c: ChannelDetails) -> Seq<char> {
    if c.is_channel_ready && c.is_usable {
        "active"@
    } else if c.is_channel_ready {
        "inactive"@
    } else {
        "pending_open"@
    }
}

/// What is told of a channel.
pub open spec fn channel_info(c: ChannelDetails) -> LdkChannelInfo<Seq<char>> {
    LdkChannelInfo {
        id: c.channel_id@,
        short_channel_id: opt_scid(c.short_channel_id),
        peer_pubkey: node_text(c.counterparty),
        state: channel_state(c),
        is_private: !c.is_announced,
        local_balance: c.outbound_capacity_msat,
        remote_balance: c.inbound_capacity_msat,
        capacity: (c.channel_value_sats * 1000) as u64,
        funding_txid: match c.funding_txo {
            Some(txo) => Some(txo.txid@),
            None => None,
        },
        funding_output_index: match c.funding_txo {
            Some(txo) => Some(txo.vout),
            None => None,
        },
    }
}

/// The capacity of every channel, in millisatoshis, fits into 64 bits.
pub open spec fn capacities_fit(channels: Seq<ChannelDetails>) -> bool {
    forall|i: int|
        0 <= i < channels.len() ==> (#[trigger] channels[i]).channel_value_sats * 1000 <= u64::MAX
}

/// What is told of each channel.
pub open spec fn channel_infos(channels: Seq<ChannelDetails>) -> Seq<LdkChannelInfo<Seq<char>>> {
    channels.map_values(|c: ChannelDetails| channel_info(c))
}

/// Whether the capacity of every channel fits.
pub fn check_capacities(channels: &Vec<ChannelDetails>) -> (out: bool)
    ensures
        out == capacities_fit(channels@),
{
    let mut i: usize = 0;
    while i < channels.len()
        invariant
            i <= channels.len(),
            forall|k: int|
                0 <= k < i ==> (#[trigger] channels@[k]).channel_value_sats * 1000 <= u64::MAX,
        decreases channels.len() - i,
    {
        if channels[i].channel_value_sats > u64::MAX / 1000 {
            assert(channels@[i as int].channel_value_sats * 1000 > u64::MAX);
            return false;
        }
        i += 1;
    }
    true
}

fn describe_channel(c: &ChannelDetails) -> (out: LdkChannelInfo)
    requires
        c.channel_value_sats * 1000 <= u64::MAX,
    ensures
        out@ == channel_info(*c),
{
    let state: &str = if c.is_channel_ready && c.is_usable {
        "active"
    } else if c.is_channel_ready {
        "inactive"
    } else {
        "pending_open"
    };
    LdkChannelInfo {
        id: copy_text(c.channel_id.as_str()),
        short_channel_id: scid_if_any(c.short_channel_id),
        peer_pubkey: c.counterparty.to_string(),
        state: copy_text(state),
        is_private: !c.is_announced,
        local_balance: c.outbound_capacity_msat,
        remote_balance: c.inbound_capacity_msat,
        capacity: c.channel_value_sats * 1000,
        funding_txid: match &c.funding_txo {
            Some(txo) => Some(copy_text(txo.txid.as_str())),
            None => None,
        },
        funding_output_index: match &c.funding_txo {
            Some(txo) => Some(txo.vout),
            None => None,
        },
    }
}

/// The number of channels with a peer.
pub open spec fn channels_with(channels: Seq<ChannelDetails>, node: NodeId) -> nat
    decreases channels.len(),
{
    if channels.len() == 0 {
        0
    } else {
        channels_with(channels.drop_last(), node) + if channels.last().counterparty == node {
            1nat
        } else {
            0nat
        }
    }
}

fn count_channels(channels: &Vec<ChannelDetails>, node: &NodeId) -> (out: usize)
    ensures
        out == channels_with(channels@, *node),
{
    let mut n: usize = 0;
    let mut i: usize = 0;
    while i < channels.len()
        invariant
            n <= i <= channels.len(),
            n == channels_with(channels@.take(i as int), *node),
        decreases channels.len() - i,
    {
        assert(channels@.take(i + 1).drop_last() =~= channels@.take(i as int));
        if same_node(&channels[i].counterparty, node) {
            n += 1;
        }
        i += 1;
    }
    assert(channels@.take(i as int) =~= channels@);
    n
}

/// What is told of a peer.
pub open spec fn peer_info(p: PeerDetails, channels: Seq<ChannelDetails>) -> LdkPeerInfo<
    Seq<char>,
> {
    LdkPeerInfo {
        pubkey: node_text(p.node_id),
        address: p.address@,
        connected: p.is_connected,
        alias: None,
        num_channels: channels_with(channels, p.node_id) as usize,
    }
}

/// What is told of each peer.
pub open spec fn peer_infos(peers: Seq<PeerDetails>, channels: Seq<ChannelDetails>) -> Seq<
    LdkPeerInfo<Seq<char>>,
> {
    peers.map_values(|p: PeerDetails| peer_info(p, channels))
}

/// What is told of the fees of a channel.
pub open spec fn channel_fees(c: ChannelDetails) -> LdkChannelFees<Seq<char>> {
    LdkChannelFees {
        id: c.channel_id@,
        short_channel_id: opt_scid(c.short_channel_id),
        peer_pubkey: node_text(c.counterparty),
        base_fee: c.forwarding_fee_base_msat,
        fee_rate: c.forwarding_fee_proportional_millionths,
        min_htlc: c.inbound_htlc_minimum_msat,
        max_htlc: c.inbound_htlc_maximum_msat,
    }
}

/// What is told of the fees of the channels with the given id, or of all.
pub open spec fn fee_infos(channels: Seq<ChannelDetails>, id: Option<Seq<char>>) -> Seq<
    LdkChannelFees<Seq<char>>,
>
    decreases channels.len(),
{
    if channels.len() == 0 {
        Seq::empty()
    } else {
        let before = fee_infos(channels.drop_last(), id);
        let c = channels.last();
        if id is None || id == Some(c.channel_id@) {
            before.push(channel_fees(c))
        } else {
            before
        }
    }
}

/// The policy of one side of a channel, as it is told.
pub open spec fn policy_info(p: Option<ChannelPolicy>) -> Option<NetworkChannelPolicy> {
    match p {
        Some(p) => Some(
            NetworkChannelPolicy {
                base_fee: p.base_msat,
                fee_rate: p.proportional_millionths,
                min_htlc: p.htlc_minimum_msat,
                max_htlc: p.htlc_maximum_msat,
                time_lock_delta: p.cltv_expiry_delta,
                disabled: !p.enabled,
                last_update: p.last_update,
            },
        ),
        None => None,
    }
}

fn describe_policy(p: &Option<ChannelPolicy>) -> (out: Option<NetworkChannelPolicy>)
    ensures
        out == policy_info(*p),
{
    match p {
        Some(p) => Some(
            NetworkChannelPolicy {
                base_fee: p.base_msat,
                fee_rate: p.proportional_millionths,
                min_htlc: p.htlc_minimum_msat,
                max_htlc: p.htlc_maximum_msat,
                time_lock_delta: p.cltv_expiry_delta,
                disabled: !p.enabled,
                last_update: p.last_update,
            },
        ),
        None => None,
    }
}

/// What is told of a channel of the network.
pub open spec fn network_channel_info(scid: u64, c: GraphChannel) -> NetworkChannelInfo<
    Seq<char>,
> {
    NetworkChannelInfo {
        short_channel_id: scid_text(scid),
        capacity: c.capacity_sats,
        node1_pubkey: node_text(c.node_one),
        node2_pubkey: node_text(c.node_two),
        node1_policy: policy_info(c.one_to_two),
        node2_policy: policy_info(c.two_to_one),
    }
}

/// The capacity of a channel in satoshis, zero if it is not known.
pub open spec fn capacity_of(c: Option<GraphChannel>) -> u64 {
    match c {
        Some(c) => match c.capacity_sats {
            Some(n) => n,
            None => 0,
        },
        None => 0,
    }
}

fn capacity(c: &Option<GraphChannel>) -> (out: u64)
    ensures
        out == capacity_of(*c),
{
    match c {
        Some(c) => match c.capacity_sats {
            Some(n) => n,
            None => 0,
        },
        None => 0,
    }
}

/// The sum of the capacities of channels.
pub open spec fn capacity_sum(channels: Seq<Option<GraphChannel>>) -> int
    decreases channels.len(),
{
    if channels.len() == 0 {
        0
    } else {
        capacity_sum(channels.drop_last()) + capacity_of(channels.last())
    }
}

/// The largest capacity of channels.
pub open spec fn capacity_max(channels: Seq<Option<GraphChannel>>) -> u64
    decreases channels.len(),
{
    if channels.len() == 0 {
        0
    } else {
        let before = capacity_max(channels.drop_last());
        if capacity_of(channels.last()) > before {
            capacity_of(channels.last())
        } else {
            before
        }
    }
}

proof fn lemma_capacity_sum(channels: Seq<Option<GraphChannel>>, i: int)
    requires
        0 <= i <= channels.len(),
    ensures
        0 <= capacity_sum(channels.take(i)) <= capacity_sum(channels),
    decreases channels.len() + (channels.len() - i),
{
    if i == channels.len() {
        assert(channels.take(i) =~= channels);
        if i > 0 {
            lemma_capacity_sum(channels.drop_last(), i - 1);
            assert(channels.drop_last().take(i - 1) =~= channels.drop_last());
        }
    } else {
        lemma_capacity_sum(channels, i + 1);
        assert(channels.take(i + 1).drop_last() =~= channels.take(i));
        lemma_capacity_sum(channels.take(i), i);
        assert(channels.take(i).take(i) =~= channels.take(i));
    }
}

/// The colour of a node: three bytes in hexadecimal behind a number sign.
pub open spec fn color_text(rgb: Seq<u8>) -> Seq<char> {
    "#"@ + hex_text(rgb)
}

/// What is told of a node of the network.
pub open spec fn node_info(n: GraphNode) -> NetworkNodeInfo<Seq<char>, Seq<Seq<char>>> {
    NetworkNodeInfo {
        pubkey: node_text(n.id),
        alias: match n.announcement {
            Some(a) => a.alias@,
            None => Seq::empty(),
        },
        color: match n.announcement {
            Some(a) => color_text(a.rgb@),
            None => "#000000"@,
        },
        num_channels: n.channels@.len() as usize,
        total_capacity: capacity_sum(n.channels@) as u64,
        addresses: match n.announcement {
            Some(a) => texts(a.addresses@),
            None => Seq::empty(),
        },
        last_update: match n.announcement {
            Some(a) => a.last_update,
            None => 0,
        },
    }
}

/// The capacity of a node's channels fits into 64 bits.
pub open spec fn node_fits(n: GraphNode) -> bool {
    capacity_sum(n.channels@) <= u64::MAX
}

/// What is told of a node of the network. `None` if the capacity of its
/// channels does not fit into 64 bits.
pub fn map_node_info(n: &GraphNode) -> (out: Option<NetworkNodeInfo>)
    ensures
        match out {
            Some(info) => node_fits(*n) && info@ == node_info(*n),
            None => !node_fits(*n),
        },
{
    let mut total_capacity: u64 = 0;
    let mut i: usize = 0;
    while i < n.channels.len()
        invariant
            i <= n.channels.len(),
            total_capacity == capacity_sum(n.channels@.take(i as int)),
        decreases n.channels.len() - i,
    {
        assert(n.channels@.take(i + 1).drop_last() =~= n.channels@.take(i as int));
        match total_capacity.checked_add(capacity(&n.channels[i])) {
            Some(sum) => {
                total_capacity = sum;
            },
            None => {
                proof {
                    lemma_capacity_sum(n.channels@, i + 1);
                }
                return None;
            },
        }
        i += 1;
    }
    assert(n.channels@.take(i as int) =~= n.channels@);
    let no_text: String = copy_text("");
    proof {
        reveal_strlit("");
        assert(no_text@ =~= Seq::empty());
    }
    let info: NetworkNodeInfo = match &n.announcement {
        Some(a) => NetworkNodeInfo {
            pubkey: n.id.to_string(),
            alias: copy_text(a.alias.as_str()),
            color: join("#", hex_string(a.rgb.as_slice()).as_str()),
            num_channels: n.channels.len(),
            total_capacity,
            addresses: copy_texts(&a.addresses),
            last_update: a.last_update,
        },
        None => NetworkNodeInfo {
            pubkey: n.id.to_string(),
            alias: no_text,
            color: copy_text("#000000"),
            num_channels: n.channels.len(),
            total_capacity,
            addresses: Vec::new(),
            last_update: 0,
        },
    };
    assert(texts(Seq::<String>::empty()) =~= Seq::empty());
    Some(info)
}

/// The nodes that the graph still holds.
pub open spec fn known_nodes(nodes: Seq<Option<GraphNode>>) -> Seq<GraphNode>
    decreases nodes.len(),
{
    if nodes.len() == 0 {
        Seq::empty()
    } else {
        match nodes.last() {
            Some(n) => known_nodes(nodes.drop_last()).push(n),
            None => known_nodes(nodes.drop_last()),
        }
    }
}

/// The capacities of all nodes fit.
pub open spec fn nodes_fit(nodes: Seq<Option<GraphNode>>) -> bool {
    forall|i: int|
        #![trigger nodes[i]]
        0 <= i < nodes.len() ==> (nodes[i] matches Some(n) ==> node_fits(n))
}

/// What is told of each node.
pub open spec fn node_infos(nodes: Seq<GraphNode>) -> Seq<
    NetworkNodeInfo<Seq<char>, Seq<Seq<char>>>,
> {
    nodes.map_values(|n: GraphNode| node_info(n))
}

/// The figures on a network: the total stops at the largest 64-bit number.
pub open spec fn network_figures(
    num_nodes: usize,
    channels: Seq<Option<GraphChannel>>,
) -> NetworkStats {
    let total = if capacity_sum(channels) > u64::MAX {
        u64::MAX as int
    } else {
        capacity_sum(channels)
    };
    NetworkStats {
        num_nodes,
        num_channels: channels.len() as usize,
        total_capacity: total as u64,
        avg_channel_size: if channels.len() > 0 {
            (total / channels.len() as int) as u64
        } else {
            0
        },
        max_channel_size: capacity_max(channels),
    }
}

/// The channels that the graph still holds.
pub open spec fn known_channels(channels: Seq<Option<GraphChannel>>) -> Seq<GraphChannel>
    decreases channels.len(),
{
    if channels.len() == 0 {
        Seq::empty()
    } else {
        match channels.last() {
            Some(c) => known_channels(channels.drop_last()).push(c),
            None => known_channels(channels.drop_last()),
        }
    }
}

fn keep_known_channels(channels: &Vec<Option<GraphChannel>>) -> (out: Vec<GraphChannel>)
    ensures
        out@ == known_channels(channels@),
{
    let mut out: Vec<GraphChannel> = Vec::new();
    let mut i: usize = 0;
    while i < channels.len()
        invariant
            i <= channels.len(),
            out@ == known_channels(channels@.take(i as int)),
        decreases channels.len() - i,
    {
        assert(channels@.take(i + 1).drop_last() =~= channels@.take(i as int));
        match &channels[i] {
            Some(c) => {
                out.push(*c);
            },
            None => {},
        }
        i += 1;
    }
    assert(channels@.take(i as int) =~= channels@);
    out
}

/// A step of a route, as it is told.
pub open spec fn hop_info(h: Hop) -> RouteHop<Seq<char>> {
    RouteHop {
        pubkey: node_text(h.node),
        short_channel_id: scid_text(h.scid),
        fee: h.fee,
        expiry: h.cltv,
    }
}

/// The sum of the time locks of a path.
pub open spec fn lock_sum(path: Seq<Hop>) -> int
    decreases path.len(),
{
    if path.len() == 0 {
        0
    } else {
        lock_sum(path.drop_last()) + path.last().cltv
    }
}

/// A route, as it is told.
pub open spec fn route_info(t: Trail<Seq<Hop>>) -> FoundRoute<Seq<RouteHop<Seq<char>>>> {
    FoundRoute {
        total_fee: t.cost,
        total_time_lock: lock_sum(t.path) as u32,
        hops: t.path.map_values(|h: Hop| hop_info(h)),
    }
}

/// The routes from a node to the one that a text names, as they are told. No
/// node is named by a text that is no public key. `None` if a fee on the way
/// does not fit into 64 bits.
pub open spec fn routes_to(
    from: NodeId,
    dest: Result<NodeId, Seq<char>>,
    amount_msat: u64,
    max_routes: nat,
    channels: Seq<Option<GraphChannel>>,
) -> Option<Seq<FoundRoute<Seq<RouteHop<Seq<char>>>>>> {
    match dest {
        Ok(dest) => match trails_between(
            from,
            dest,
            amount_msat,
            max_routes,
            known_channels(channels),
        ) {
            Some(trails) => Some(trails.map_values(|t: Trail<Seq<Hop>>| route_info(t))),
            None => None,
        },
        Err(_) => Some(Seq::empty()),
    }
}

fn describe_route(t: &Trail) -> (out: FoundRoute)
    requires
        t.path.len() <= MAX_HOPS,
    ensures
        out@ == route_info(t@),
{
    let mut hops: Vec<RouteHop> = Vec::new();
    let mut total_time_lock: u32 = 0;
    let mut i: usize = 0;
    while i < t.path.len()
        invariant
            t.path.len() <= MAX_HOPS,
            i <= t.path.len(),
            hops.len() == i,
            forall|k: int| 0 <= k < i ==> (#[trigger] hops@[k])@ == hop_info(t.path@[k]),
            total_time_lock == lock_sum(t.path@.take(i as int)),
            total_time_lock <= i * 0xFFFF,
        decreases t.path.len() - i,
    {
        let h: Hop = t.path[i];
        assert(t.path@.take(i + 1).drop_last() =~= t.path@.take(i as int));
        hops.push(
            RouteHop {
                pubkey: h.node.to_string(),
                short_channel_id: format_scid(h.scid),
                fee: h.fee,
                expiry: h.cltv,
            },
        );
        total_time_lock = total_time_lock + h.cltv as u32;
        i += 1;
    }
    assert(t.path@.take(i as int) =~= t.path@);
    assert(views(hops@) =~= t.path@.map_values(|h: Hop| hop_info(h)));
    FoundRoute { total_fee: t.cost, total_time_lock, hops }
}

/// The routes from one node to another, as they are told. `None` if a fee on
/// the way does not fit into 64 bits.
pub fn find_routes_between(
    from: NodeId,
    dest: NodeId,
    amount_msat: u64,
    max_routes: usize,
    channels: &Vec<Option<GraphChannel>>,
) -> (out: Option<Vec<FoundRoute>>)
    ensures
        match out {
            Some(routes) => routes_to(
                from,
                Ok(dest),
                amount_msat,
                max_routes as nat,
                channels@,
            ) == Some(views(routes@)),
            None => routes_to(from, Ok(dest), amount_msat, max_routes as nat, channels@) is None,
        },
{
    let known: Vec<GraphChannel> = keep_known_channels(channels);
    let trails: Vec<Trail> = match find_trails(from, dest, amount_msat, max_routes, &known) {
        Some(t) => t,
        None => {
            return None;
        },
    };
    proof {
        search_finds_routes(from, dest, amount_msat, max_routes as nat, known@);
    }
    let ghost all = views(trails@);
    let mut out: Vec<FoundRoute> = Vec::new();
    let mut i: usize = 0;
    while i < trails.len()
        invariant
            all == views(trails@),
            forall|k: int| 0 <= k < all.len() ==> (#[trigger] all[k]).path.len() <= MAX_HOPS,
            i <= trails.len(),
            out.len() == i,
            forall|k: int| 0 <= k < i ==> (#[trigger] out@[k])@ == route_info(all[k]),
        decreases trails.len() - i,
    {
        assert(all[i as int] == trails@[i as int]@);
        out.push(describe_route(&trails[i]));
        i += 1;
    }
    assert(views(out@) =~= all.map_values(|t: Trail<Seq<Hop>>| route_info(t)));
    Some(out)
}

impl LdkService {
    /// What is told of each channel.
    pub fn list_channels(&self, channels: &Vec<ChannelDetails>) -> (out: Vec<LdkChannelInfo>)
        requires
            capacities_fit(channels@),
        ensures
            views(out@) == channel_infos(channels@),
    {
        let mut out: Vec<LdkChannelInfo> = Vec::new();
        let mut i: usize = 0;
        while i < channels.len()
            invariant
                capacities_fit(channels@),
                i <= channels.len(),
                out.len() == i,
                forall|k: int| 0 <= k < i ==> (#[trigger] out@[k])@ == channel_info(channels@[k]),
            decreases channels.len() - i,
        {
            assert(channels@[i as int].channel_value_sats * 1000 <= u64::MAX);
            out.push(describe_channel(&channels[i]));
            i += 1;
        }
        assert(views(out@) =~= channel_infos(channels@));
        out
    }

    /// What is told of each peer.
    pub fn list_peers(&self, peers: &Vec<PeerDetails>, channels: &Vec<ChannelDetails>) -> (out:
        Vec<LdkPeerInfo>)
        ensures
            views(out@) == peer_infos(peers@, channels@),
    {
        let mut out: Vec<LdkPeerInfo> = Vec::new();
        let mut i: usize = 0;
        while i < peers.len()
            invariant
                i <= peers.len(),
                out.len() == i,
                forall|k: int|
                    0 <= k < i ==> (#[trigger] out@[k])@ == peer_info(peers@[k], channels@),
            decreases peers.len() - i,
        {
            let p: &PeerDetails = &peers[i];
            out.push(
                LdkPeerInfo {
                    pubkey: p.node_id.to_string(),
                    address: copy_text(p.address.as_str()),
                    connected: p.is_connected,
                    alias: None,
                    num_channels: count_channels(channels, &p.node_id),
                },
            );
            i += 1;
        }
        assert(views(out@) =~= peer_infos(peers@, channels@));
        out
    }

    /// What is told of the fees of the channels with the given id, or of all.
    pub fn get_channel_fees(&self, channels: &Vec<ChannelDetails>, channel_id: Option<&str>) -> (out:
        Vec<LdkChannelFees>)
        ensures
            views(out@) == fee_infos(channels@, opt_str(channel_id)),
    {
        let mut out: Vec<LdkChannelFees> = Vec::new();
        let mut i: usize = 0;
        assert(views(out@) =~= Seq::empty());
        while i < channels.len()
            invariant
                i <= channels.len(),
                views(out@) == fee_infos(channels@.take(i as int), opt_str(channel_id)),
            decreases channels.len() - i,
        {
            let c: &ChannelDetails = &channels[i];
            assert(channels@.take(i + 1).drop_last() =~= channels@.take(i as int));
            let wanted: bool = match channel_id {
                Some(id) => same_text(c.channel_id.as_str(), id),
                None => true,
            };
            if wanted {
                let ghost before = out@;
                let fees: LdkChannelFees = LdkChannelFees {
                    id: copy_text(c.channel_id.as_str()),
                    short_channel_id: scid_if_any(c.short_channel_id),
                    peer_pubkey: c.counterparty.to_string(),
                    base_fee: c.forwarding_fee_base_msat,
                    fee_rate: c.forwarding_fee_proportional_millionths,
                    min_htlc: c.inbound_htlc_minimum_msat,
                    max_htlc: c.inbound_htlc_maximum_msat,
                };
                proof {
                    lemma_views_push(before, fees);
                }
                out.push(fees);
            }
            i += 1;
        }
        assert(channels@.take(i as int) =~= channels@);
        out
    }

    /// Whether a channel with the node that the text names is ready.
    pub fn has_ready_channel_with(
        &self,
        channels: &Vec<ChannelDetails>,
        counterparty_pubkey: &str,
    ) -> (out: bool)
        ensures
            out == (pubkey_parse(counterparty_pubkey@) matches Ok(node) && exists|i: int|
                0 <= i < channels@.len() && (#[trigger] channels@[i]).counterparty == node
                    && channels@[i].is_channel_ready),
    {
        match parse_pubkey(counterparty_pubkey) {
            Ok(node) => {
                let mut i: usize = 0;
                while i < channels.len()
                    invariant
                        pubkey_parse(counterparty_pubkey@) == Ok::<NodeId, Seq<char>>(node),
                        i <= channels.len(),
                        forall|k: int|
                            0 <= k < i ==> !((#[trigger] channels@[k]).counterparty == node
                                && channels@[k].is_channel_ready),
                    decreases channels.len() - i,
                {
                    if same_node(&channels[i].counterparty, &node) && channels[i].is_channel_ready {
                        assert(channels@[i as int].counterparty == node);
                        return true;
                    }
                    i += 1;
                }
                false
            },
            Err(_) => false,
        }
    }

    /// Whether there is a channel with the node that the text names.
    pub fn has_channel_with(
        &self,
        channels: &Vec<ChannelDetails>,
        counterparty_pubkey: &str,
    ) -> (out: bool)
        ensures
            out == (pubkey_parse(counterparty_pubkey@) matches Ok(node) && exists|i: int|
                0 <= i < channels@.len() && (#[trigger] channels@[i]).counterparty == node),
    {
        match parse_pubkey(counterparty_pubkey) {
            Ok(node) => {
                let mut i: usize = 0;
                while i < channels.len()
                    invariant
                        pubkey_parse(counterparty_pubkey@) == Ok::<NodeId, Seq<char>>(node),
                        i <= channels.len(),
                        forall|k: int| 0 <= k < i ==> (#[trigger] channels@[k]).counterparty != node,
                    decreases channels.len() - i,
                {
                    if same_node(&channels[i].counterparty, &node) {
                        assert(channels@[i as int].counterparty == node);
                        return true;
                    }
                    i += 1;
                }
                false
            },
            Err(_) => false,
        }
    }

    /// Asks for the nodes of one page of the network's nodes.
    pub fn page_network_nodes(&self, ids: &Vec<NodeId>, limit: usize, offset: usize) -> (out:
        NodeCall)
        ensures
            out@ == (CallView::ReadNodes { ids: page(ids@, offset as int, limit as int) }),
    {
        let n: usize = ids.len();
        let start: usize = if offset < n {
            offset
        } else {
            n
        };
        let end: usize = if limit < n - start {
            start + limit
        } else {
            n
        };
        let mut out: Vec<NodeId> = Vec::new();
        let mut i: usize = start;
        while i < end
            invariant
                start <= i <= end <= ids.len(),
                out@ == ids@.subrange(start as int, i as int),
            decreases end - i,
        {
            out.push(ids[i]);
            assert(out@ =~= ids@.subrange(start as int, i + 1));
            i += 1;
        }
        NodeCall::ReadNodes { ids: out }
    }

    /// What is told of the nodes that the graph holds. `None` if the capacity of
    /// one of them does not fit into 64 bits.
    pub fn list_network_nodes(&self, nodes: &Vec<Option<GraphNode>>) -> (out: Option<
        Vec<NetworkNodeInfo>,
    >)
        ensures
            match out {
                Some(list) => nodes_fit(nodes@) && views(list@) == node_infos(known_nodes(nodes@)),
                None => !nodes_fit(nodes@),
            },
    {
        let mut out: Vec<NetworkNodeInfo> = Vec::new();
        let mut i: usize = 0;
        assert(views(out@) =~= node_infos(known_nodes(nodes@.take(0))));
        while i < nodes.len()
            invariant
                i <= nodes.len(),
                forall|k: int|
                    #![trigger nodes@[k]]
                    0 <= k < i ==> (nodes@[k] matches Some(n) ==> node_fits(n)),
                views(out@) == node_infos(known_nodes(nodes@.take(i as int))),
            decreases nodes.len() - i,
        {
            assert(nodes@.take(i + 1).drop_last() =~= nodes@.take(i as int));
            match &nodes[i] {
                Some(n) => match map_node_info(n) {
                    Some(info) => {
                        proof {
                            lemma_views_push(out@, info);
                            assert(node_infos(known_nodes(nodes@.take(i + 1))) =~= node_infos(
                                known_nodes(nodes@.take(i as int)),
                            ).push(node_info(*n)));
                        }
                        out.push(info);
                    },
                    None => {
                        assert(nodes@[i as int] == Some(*n));
                        return None;
                    },
                },
                None => {},
            }
            i += 1;
        }
        assert(nodes@.take(i as int) =~= nodes@);
        Some(out)
    }

    /// Asks for the node that the text names.
    pub fn get_network_node(&self, pubkey: &str) -> (out: Result<NodeCall, LdkServiceError>)
        ensures
            result_view(out) == match pubkey_parse(pubkey@) {
                Ok(id) => Ok::<CallView, ErrorView>(NodeCall::ReadNodes { ids: seq![id] }),
                Err(m) => Err::<CallView, ErrorView>(LdkServiceError::InvalidPubkey(m)),
            },
    {
        match parse_pubkey(pubkey) {
            Ok(id) => {
                let mut ids: Vec<NodeId> = Vec::new();
                ids.push(id);
                assert(ids@ =~= seq![id]);
                Ok(NodeCall::ReadNodes { ids })
            },
            Err(m) => Err(LdkServiceError::InvalidPubkey(m)),
        }
    }

    /// The figures on the network.
    pub fn get_network_stats(
        &self,
        num_nodes: usize,
        channels: &Vec<Option<GraphChannel>>,
    ) -> (out: NetworkStats)
        ensures
            out == network_figures(num_nodes, channels@),
    {
        let num_channels: usize = channels.len();
        let mut total_capacity: u64 = 0;
        let mut max_channel_size: u64 = 0;
        let mut i: usize = 0;
        while i < channels.len()
            invariant
                i <= channels.len(),
                total_capacity == if capacity_sum(channels@.take(i as int)) > u64::MAX {
                    u64::MAX as int
                } else {
                    capacity_sum(channels@.take(i as int))
                },
                max_channel_size == capacity_max(channels@.take(i as int)),
            decreases channels.len() - i,
        {
            assert(channels@.take(i + 1).drop_last() =~= channels@.take(i as int));
            let cap: u64 = capacity(&channels[i]);
            total_capacity = total_capacity.saturating_add(cap);
            if cap > max_channel_size {
                max_channel_size = cap;
            }
            i += 1;
        }
        assert(channels@.take(i as int) =~= channels@);
        let avg_channel_size: u64 = if num_channels > 0 {
            total_capacity / num_channels as u64
        } else {
            0
        };
        NetworkStats {
            num_nodes,
            num_channels,
            total_capacity,
            avg_channel_size,
            max_channel_size,
        }
    }

    /// Asks for the channel that the text names.
    pub fn get_network_channel(&self, scid_str: &str) -> (out: Result<NodeCall, LdkServiceError>)
        ensures
            result_view(out) == match parsed_scid(scid_str@) {
                Some(scid) => Ok::<CallView, ErrorView>(NodeCall::ReadChannel { scid }),
                None => Err::<CallView, ErrorView>(
                    LdkServiceError::ChannelFailed("invalid scid format: "@ + scid_str@),
                ),
            },
    {
        match parse_scid(scid_str) {
            Some(scid) => Ok(NodeCall::ReadChannel { scid }),
            None => Err(LdkServiceError::ChannelFailed(join("invalid scid format: ", scid_str))),
        }
    }

    /// What is told of a channel of the network.
    pub fn describe_network_channel(&self, scid: u64, channel: &GraphChannel) -> (out:
        NetworkChannelInfo)
        ensures
            out@ == network_channel_info(scid, *channel),
    {
        NetworkChannelInfo {
            short_channel_id: format_scid(scid),
            capacity: channel.capacity_sats,
            node1_pubkey: channel.node_one.to_string(),
            node2_pubkey: channel.node_two.to_string(),
            node1_policy: describe_policy(&channel.one_to_two),
            node2_policy: describe_policy(&channel.two_to_one),
        }
    }

    /// The payments that a filter asks for, newest first.
    pub fn list_payments_filtered(
        &self,
        payments: &Vec<PaymentDetails>,
        filter: &PaymentFilter,
        limit: Option<u64>,
        offset: Option<u64>,
    ) -> (out: Vec<PaymentDetails>)
        ensures
            out@ == filtered_payments(payments@, *filter, limit, offset),
    {
        filter_payments(payments, filter, limit, offset)
    }

    /// The routes to the node that the text names, cheapest first. `None` if a
    /// fee on the way does not fit into 64 bits.
    pub fn find_routes(
        &self,
        channels: &Vec<Option<GraphChannel>>,
        dest_pubkey: &str,
        amount_msat: u64,
        max_routes: usize,
    ) -> (out: Option<Vec<FoundRoute>>)
        ensures
            match out {
                Some(routes) => routes_to(
                    self.id(),
                    pubkey_parse(dest_pubkey@),
                    amount_msat,
                    max_routes as nat,
                    channels@,
                ) == Some(views(routes@)),
                None => routes_to(
                    self.id(),
                    pubkey_parse(dest_pubkey@),
                    amount_msat,
                    max_routes as nat,
                    channels@,
                ) is None,
            },
    {
        match parse_pubkey(dest_pubkey) {
            Ok(dest) => find_routes_between(
                self.own_id(),
                dest,
                amount_msat,
                max_routes,
                channels,
            ),
            Err(_) => {
                let none: Vec<FoundRoute> = Vec::new();
                assert(views(none@) =~= Seq::empty());
                Some(none)
            },
        }
    }
}

} // verus!
