//! What is told of the node, its channels and the network.

use vstd::prelude::*;

use crate::lightning::graph::{ChannelPolicy, GraphChannel, NodeId};
#[allow(unused_imports)]
use crate::lightning::hex::hex_text;
use crate::lightning::ldk_service::{
    LdkChannelFees, LdkChannelInfo, LdkPeerInfo, LdkServiceError, NetworkChannelInfo,
    NetworkChannelPolicy, NetworkNodeInfo, NetworkStats,
};
use crate::lightning::node::{ChannelDetails, GraphNode, NodeCall, PeerDetails};
#[allow(unused_imports)]
use crate::lightning::parse::pubkey_parse;
#[allow(unused_imports)]
use crate::lightning::reports::{
    capacity_max, capacity_sum, channel_fees, channels_with, fee_infos, known_nodes,
    map_node_info,
};
#[allow(unused_imports)]
use crate::lightning::scid::{parsed_scid, scid_text};
use crate::lightning::service::LdkService;
#[allow(unused_imports)]
use crate::text::{opt_str, texts};
#[allow(unused_imports)]
use crate::views::views;

verus! {

/// Every channel is told in its place, with the funds of both sides: what the
/// node can send is its own, what it can receive is the peer's.
pub proof fn channels_tell_both_sides(
    service: LdkService,
    channels: Vec<ChannelDetails>,
    told: Vec<LdkChannelInfo>,
    i: int,
)
    requires
        call_ensures(LdkService::list_channels, (&service, &channels), told),
        0 <= i < channels@.len(),
    ensures
        told@.len() == channels@.len(),
        told@[i].local_balance == channels@[i].outbound_capacity_msat,
        told@[i].remote_balance == channels@[i].inbound_capacity_msat,
        channels@[i].channel_value_sats * 1000 <= u64::MAX ==> told@[i].capacity
            == channels@[i].channel_value_sats * 1000,
{
    assert(views(told@).len() == told@.len());
    assert(views(told@)[i] == told@[i]@);
}

/// Every channel is told under its id and its peer, and with its short id and its
/// funding output where it has them. It is private exactly if it is not
/// announced.
pub proof fn channels_are_told_by_id(
    service: LdkService,
    channels: Vec<ChannelDetails>,
    told: Vec<LdkChannelInfo>,
    i: int,
)
    requires
        call_ensures(LdkService::list_channels, (&service, &channels), told),
        0 <= i < channels@.len(),
    ensures
        told@[i].id@ == channels@[i].channel_id@,
        told@[i].peer_pubkey@ == hex_text(channels@[i].counterparty.bytes@),
        told@[i].is_private <==> !channels@[i].is_announced,
        told@[i].short_channel_id is Some <==> channels@[i].short_channel_id is Some,
        channels@[i].short_channel_id matches Some(scid) ==> told@[i].short_channel_id->0@
            == scid_text(scid),
        told@[i].funding_txid is Some <==> channels@[i].funding_txo is Some,
        told@[i].funding_output_index is Some <==> channels@[i].funding_txo is Some,
        channels@[i].funding_txo matches Some(txo) ==> told@[i].funding_txid->0@ == txo.txid@
            && told@[i].funding_output_index == Some(txo.vout),
{
    assert(views(told@).len() == told@.len());
    assert(views(told@)[i] == told@[i]@);
}

/// A channel is told as active exactly if it is ready and can be used, as
/// inactive if it is ready only, and as still to be opened before that.
pub proof fn channel_states_tell_what_works(
    service: LdkService,
    channels: Vec<ChannelDetails>,
    told: Vec<LdkChannelInfo>,
    i: int,
)
    requires
        call_ensures(LdkService::list_channels, (&service, &channels), told),
        0 <= i < channels@.len(),
    ensures
        channels@[i].is_channel_ready && channels@[i].is_usable ==> told@[i].state@ == "active"@,
        channels@[i].is_channel_ready && !channels@[i].is_usable ==> told@[i].state@ == "inactive"@,
        !channels@[i].is_channel_ready ==> told@[i].state@ == "pending_open"@,
{
    assert(views(told@).len() == told@.len());
    assert(views(told@)[i] == told@[i]@);
}

proof fn lemma_channels_with(channels: Seq<ChannelDetails>, node: NodeId)
    ensures
        channels_with(channels, node) == channels.filter(
            |c: ChannelDetails| c.counterparty == node,
        ).len(),
    decreases channels.len(),
{
    reveal(Seq::filter);
    if channels.len() > 0 {
        lemma_channels_with(channels.drop_last(), node);
    }
}

/// Every peer is told in its place, with its address, whether it is connected,
/// and how many of the node's channels lead to it.
pub proof fn peers_are_told_with_their_channels(
    service: LdkService,
    peers: Vec<PeerDetails>,
    channels: Vec<ChannelDetails>,
    told: Vec<LdkPeerInfo>,
    i: int,
)
    requires
        call_ensures(LdkService::list_peers, (&service, &peers, &channels), told),
        0 <= i < peers@.len(),
    ensures
        told@.len() == peers@.len(),
        told@[i].pubkey@ == hex_text(peers@[i].node_id.bytes@),
        told@[i].address@ == peers@[i].address@,
        told@[i].connected == peers@[i].is_connected,
        told@[i].alias is None,
        told@[i].num_channels == channels@.filter(
            |c: ChannelDetails| c.counterparty == peers@[i].node_id,
        ).len(),
{
    assert(views(told@).len() == told@.len());
    assert(views(told@)[i] == told@[i]@);
    let node = peers@[i].node_id;
    lemma_channels_with(channels@, node);
    let to_node = |c: ChannelDetails| c.counterparty == node;
    assert(to_node =~= |c: ChannelDetails| c.counterparty == peers@[i].node_id);
    channels@.lemma_filter_len(to_node);
    assert(channels.len() == channels@.len());
}

/// The channel is the one that is asked for, or all are.
pub open spec fn fees_asked_for(id: Option<&str>) -> spec_fn(ChannelDetails) -> bool {
    |c: ChannelDetails| id matches Some(wanted) ==> c.channel_id@ == wanted@
}

proof fn lemma_fee_infos(channels: Seq<ChannelDetails>, id: Option<&str>)
    ensures
        fee_infos(channels, opt_str(id)) == channels.filter(fees_asked_for(id)).map_values(
            |c: ChannelDetails| channel_fees(c),
        ),
    decreases channels.len(),
{
    reveal(Seq::filter);
    if channels.len() > 0 {
        lemma_fee_infos(channels.drop_last(), id);
    }
    assert(fee_infos(channels, opt_str(id)) =~= channels.filter(fees_asked_for(id)).map_values(
        |c: ChannelDetails| channel_fees(c),
    ));
}

/// The fees of exactly those channels are told that are asked for, in their
/// order, each with what the node asks for forwarding over it.
pub proof fn fees_are_those_of_the_channels(
    service: LdkService,
    channels: Vec<ChannelDetails>,
    id: Option<&str>,
    told: Vec<LdkChannelFees>,
    i: int,
)
    requires
        call_ensures(LdkService::get_channel_fees, (&service, &channels, id), told),
        0 <= i < told@.len(),
    ensures
        told@.len() == channels@.filter(fees_asked_for(id)).len(),
        ({
            let c = channels@.filter(fees_asked_for(id))[i];
            &&& told@[i].id@ == c.channel_id@
            &&& told@[i].peer_pubkey@ == hex_text(c.counterparty.bytes@)
            &&& told@[i].base_fee == c.forwarding_fee_base_msat
            &&& told@[i].fee_rate == c.forwarding_fee_proportional_millionths
            &&& told@[i].min_htlc == c.inbound_htlc_minimum_msat
            &&& told@[i].max_htlc == c.inbound_htlc_maximum_msat
            &&& told@[i].short_channel_id is Some <==> c.short_channel_id is Some
            &&& c.short_channel_id matches Some(scid) ==> told@[i].short_channel_id->0@
                == scid_text(scid)
        }),
{
    lemma_fee_infos(channels@, id);
    assert(views(told@).len() == told@.len());
    assert(views(told@)[i] == told@[i]@);
}

/// How many fees are told: those of all channels, or of those with the id.
pub proof fn fees_of_all_channels_are_told(
    service: LdkService,
    channels: Vec<ChannelDetails>,
    id: Option<&str>,
    told: Vec<LdkChannelFees>,
)
    requires
        call_ensures(LdkService::get_channel_fees, (&service, &channels, id), told),
    ensures
        told@.len() == channels@.filter(fees_asked_for(id)).len(),
        id is None ==> told@.len() == channels@.len(),
{
    lemma_fee_infos(channels@, id);
    assert(views(told@).len() == told@.len());
    if id is None {
        lemma_filter_keeps_all(channels@, fees_asked_for(id));
    }
}

proof fn lemma_filter_keeps_all<T>(s: Seq<T>, keep: spec_fn(T) -> bool)
    requires
        forall|t: T| #[trigger] keep(t),
    ensures
        s.filter(keep) == s,
    decreases s.len(),
{
    reveal(Seq::filter);
    if s.len() > 0 {
        lemma_filter_keeps_all(s.drop_last(), keep);
        assert(s.drop_last().push(s.last()) =~= s);
    } else {
        assert(s.filter(keep) =~= s);
    }
}

/// A policy is told field by field, and as disabled exactly if it is not enabled.
pub open spec fn tells_policy(
    told: Option<NetworkChannelPolicy>,
    policy: Option<ChannelPolicy>,
) -> bool {
    &&& told is Some <==> policy is Some
    &&& told matches Some(t) ==> policy matches Some(p) && {
        &&& t.base_fee == p.base_msat
        &&& t.fee_rate == p.proportional_millionths
        &&& t.min_htlc == p.htlc_minimum_msat
        &&& t.max_htlc == p.htlc_maximum_msat
        &&& t.time_lock_delta == p.cltv_expiry_delta
        &&& t.last_update == p.last_update
        &&& t.disabled != p.enabled
    }
}

/// A channel of the network is told with its nodes, its capacity, and the policy
/// that each of the two nodes has set.
pub proof fn network_channels_tell_both_policies(
    service: LdkService,
    scid: u64,
    channel: GraphChannel,
    told: NetworkChannelInfo,
)
    requires
        call_ensures(LdkService::describe_network_channel, (&service, scid, &channel), told),
    ensures
        told.short_channel_id@ == scid_text(scid),
        told.capacity == channel.capacity_sats,
        told.node1_pubkey@ == hex_text(channel.node_one.bytes@),
        told.node2_pubkey@ == hex_text(channel.node_two.bytes@),
        tells_policy(told.node1_policy, channel.one_to_two),
        tells_policy(told.node2_policy, channel.two_to_one),
{
}

/// The capacity of a channel in satoshis, where the graph holds the channel and
/// knows its capacity.
pub open spec fn satoshis(c: Option<GraphChannel>) -> int {
    match c {
        Some(channel) => match channel.capacity_sats {
            Some(n) => n as int,
            None => 0,
        },
        None => 0,
    }
}

/// The satoshis of channels together.
pub open spec fn satoshi_sum(channels: Seq<Option<GraphChannel>>) -> int {
    channels.fold_left(0int, |sum: int, c: Option<GraphChannel>| sum + satoshis(c))
}

proof fn lemma_satoshi_sum(channels: Seq<Option<GraphChannel>>)
    ensures
        capacity_sum(channels) == satoshi_sum(channels),
        capacity_sum(channels) >= 0,
    decreases channels.len(),
{
    if channels.len() > 0 {
        lemma_satoshi_sum(channels.drop_last());
    }
}

/// A node of the network is told with the number of its channels and what they
/// hold together, and with what it announced of itself. Nothing is told where
/// the capacity does not fit into 64 bits.
pub proof fn nodes_are_told_as_announced(node: GraphNode, told: Option<NetworkNodeInfo>)
    requires
        call_ensures(map_node_info, (&node,), told),
    ensures
        told is None <==> satoshi_sum(node.channels@) > u64::MAX,
        told matches Some(t) ==> {
            &&& t.pubkey@ == hex_text(node.id.bytes@)
            &&& t.num_channels == node.channels@.len()
            &&& t.total_capacity == satoshi_sum(node.channels@)
            &&& node.announcement matches Some(a) ==> {
                &&& t.alias@ == a.alias@
                &&& t.color@ == "#"@ + hex_text(a.rgb@)
                &&& texts(t.addresses@) == texts(a.addresses@)
                &&& t.last_update == a.last_update
            }
            &&& node.announcement is None ==> {
                &&& t.alias@.len() == 0
                &&& t.color@ == "#000000"@
                &&& t.addresses@.len() == 0
                &&& t.last_update == 0
            }
        },
{
    lemma_satoshi_sum(node.channels@);
    assert(node.channels.len() == node.channels@.len());
    if let Some(t) = told {
        assert(texts(t.addresses@).len() == t.addresses@.len());
    }
}

proof fn lemma_known_nodes(nodes: Seq<Option<GraphNode>>)
    ensures
        known_nodes(nodes) == nodes.filter(|n: Option<GraphNode>| n is Some).map_values(
            |n: Option<GraphNode>| n->0,
        ),
    decreases nodes.len(),
{
    reveal(Seq::filter);
    if nodes.len() > 0 {
        lemma_known_nodes(nodes.drop_last());
    }
    assert(known_nodes(nodes) =~= nodes.filter(|n: Option<GraphNode>| n is Some).map_values(
        |n: Option<GraphNode>| n->0,
    ));
}

/// The nodes that the graph still holds are told, in their order, each as it is
/// told alone.
pub proof fn listed_nodes_are_told_one_by_one(
    service: LdkService,
    nodes: Vec<Option<GraphNode>>,
    told: Vec<NetworkNodeInfo>,
    i: int,
    alone: NetworkNodeInfo,
)
    requires
        call_ensures(LdkService::list_network_nodes, (&service, &nodes), Some(told)),
        0 <= i < told@.len(),
        call_ensures(
            map_node_info,
            (&(nodes@.filter(|n: Option<GraphNode>| n is Some)[i]->0),),
            Some(alone),
        ),
    ensures
        told@.len() == nodes@.filter(|n: Option<GraphNode>| n is Some).len(),
        told@[i]@ == alone@,
{
    lemma_known_nodes(nodes@);
    assert(views(told@).len() == told@.len());
    assert(views(told@)[i] == told@[i]@);
}

proof fn lemma_capacity_max(channels: Seq<Option<GraphChannel>>)
    ensures
        forall|i: int|
            0 <= i < channels.len() ==> satoshis(#[trigger] channels[i]) <= capacity_max(channels),
        channels.len() == 0 ==> capacity_max(channels) == 0,
        channels.len() > 0 ==> exists|i: int|
            0 <= i < channels.len() && satoshis(#[trigger] channels[i]) == capacity_max(channels),
    decreases channels.len(),
{
    if channels.len() > 0 {
        let front = channels.drop_last();
        let last = channels.len() - 1;
        lemma_capacity_max(front);
        assert(channels[last] == channels.last());
        assert forall|i: int| 0 <= i < channels.len() implies satoshis(#[trigger] channels[i])
            <= capacity_max(channels) by {
            if i < last {
                assert(front[i] == channels[i]);
            }
        }
        if capacity_max(channels) == satoshis(channels[last]) {
        } else {
            let i = choose|i: int|
                0 <= i < front.len() && satoshis(#[trigger] front[i]) == capacity_max(front);
            if front.len() > 0 {
                assert(channels[i] == front[i]);
            }
        }
    }
}

/// The figures on the network are the number of its nodes and channels, what the
/// channels hold together, as far as it fits into 64 bits, their average, and the
/// capacity of the largest.
pub proof fn network_figures_add_up(
    service: LdkService,
    num_nodes: usize,
    channels: Vec<Option<GraphChannel>>,
    told: NetworkStats,
)
    requires
        call_ensures(LdkService::get_network_stats, (&service, num_nodes, &channels), told),
    ensures
        told.num_nodes == num_nodes,
        told.num_channels == channels@.len(),
        satoshi_sum(channels@) <= u64::MAX ==> told.total_capacity == satoshi_sum(channels@),
        satoshi_sum(channels@) > u64::MAX ==> told.total_capacity == u64::MAX,
        channels@.len() > 0 ==> told.avg_channel_size == told.total_capacity as int
            / channels@.len() as int,
        channels@.len() == 0 ==> told.avg_channel_size == 0 && told.max_channel_size == 0,
        forall|i: int|
            0 <= i < channels@.len() ==> satoshis(#[trigger] channels@[i]) <= told.max_channel_size,
        channels@.len() > 0 ==> exists|i: int|
            0 <= i < channels@.len() && satoshis(#[trigger] channels@[i]) == told.max_channel_size,
{
    lemma_satoshi_sum(channels@);
    lemma_capacity_max(channels@);
    assert(channels.len() == channels@.len());
    let total = told.total_capacity as int;
    let n = channels@.len() as int;
    if n > 0 {
        assert(0 <= total / n <= total) by (nonlinear_arith)
            requires
                total >= 0,
                n > 0,
        ;
    }
}

/// A page of the network's nodes is asked for by skipping `offset` of them and
/// taking at most `limit`.
pub proof fn pages_of_nodes_are_asked_for(
    service: LdkService,
    ids: Vec<NodeId>,
    limit: usize,
    offset: usize,
    call: NodeCall,
)
    requires
        call_ensures(LdkService::page_network_nodes, (&service, &ids, limit, offset), call),
    ensures
        call matches NodeCall::ReadNodes { ids: page } && {
            &&& offset >= ids@.len() ==> page@.len() == 0
            &&& offset < ids@.len() && ids@.len() - offset <= limit ==> page@.len() == ids@.len()
                - offset
            &&& offset < ids@.len() && ids@.len() - offset > limit ==> page@.len() == limit
            &&& forall|i: int| 0 <= i < page@.len() ==> #[trigger] page@[i] == ids@[offset + i]
        },
{
}

/// A node of the network is looked up by the public key that was named.
pub proof fn nodes_are_looked_up_by_key(
    service: LdkService,
    pubkey: &str,
    call: Result<NodeCall, LdkServiceError>,
)
    requires
        call_ensures(LdkService::get_network_node, (&service, pubkey), call),
    ensures
        pubkey_parse(pubkey@) matches Ok(id) ==> (call matches Ok(NodeCall::ReadNodes { ids })
            && ids@ == seq![id]),
        pubkey_parse(pubkey@) matches Err(m) ==> (call matches Err(
            LdkServiceError::InvalidPubkey(told),
        ) && told@ == m),
{
}

/// A channel of the network is looked up by the short id that was named.
pub proof fn channels_are_looked_up_by_short_id(
    service: LdkService,
    text: &str,
    call: Result<NodeCall, LdkServiceError>,
)
    requires
        call_ensures(LdkService::get_network_channel, (&service, text), call),
    ensures
        parsed_scid(text@) matches Some(id) ==> (call matches Ok(NodeCall::ReadChannel { scid })
            && scid == id),
        parsed_scid(text@) is None ==> (call matches Err(LdkServiceError::ChannelFailed(told))
            && told@ == "invalid scid format: "@ + text@),
{
}

/// A channel with a node is ready only if the node has a channel with it.
pub proof fn ready_channels_are_channels(
    service: LdkService,
    channels: Vec<ChannelDetails>,
    pubkey: &str,
    any: bool,
    ready: bool,
)
    requires
        call_ensures(LdkService::has_channel_with, (&service, &channels, pubkey), any),
        call_ensures(LdkService::has_ready_channel_with, (&service, &channels, pubkey), ready),
    ensures
        ready ==> any,
        any <==> exists|i: int|
            0 <= i < channels@.len() && pubkey_parse(pubkey@) == Ok::<NodeId, Seq<char>>(
                (#[trigger] channels@[i]).counterparty,
            ),
        ready <==> exists|i: int|
            0 <= i < channels@.len() && pubkey_parse(pubkey@) == Ok::<NodeId, Seq<char>>(
                (#[trigger] channels@[i]).counterparty,
            ) && channels@[i].is_channel_ready,
{
    if pubkey_parse(pubkey@) is Ok {
        let node = pubkey_parse(pubkey@)->Ok_0;
        if any {
            let i = choose|i: int|
                0 <= i < channels@.len() && (#[trigger] channels@[i]).counterparty == node;
            assert(pubkey_parse(pubkey@) == Ok::<NodeId, Seq<char>>(channels@[i].counterparty));
        }
        if ready {
            let i = choose|i: int|
                0 <= i < channels@.len() && (#[trigger] channels@[i]).counterparty == node
                    && channels@[i].is_channel_ready;
            assert(pubkey_parse(pubkey@) == Ok::<NodeId, Seq<char>>(channels@[i].counterparty));
        }
    }
}

} // verus!
