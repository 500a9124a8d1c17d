//! What control requests ask for and come to.

use vstd::prelude::*;

#[allow(unused_imports)]
use crate::access::UsageProfile;
#[allow(unused_imports)]
use crate::control::messages::{authorize_control_method, control_named};
use crate::control::messages::{
    CloseChannelParams, ControlError, ControlMethod, ControlParams, ControlRequest,
    ControlResponse, ControlResult, GetChannelFeesParams, GetForwardingHistoryParams,
    ListNetworkNodesParams, OpenChannelParams, RouteParams, SetChannelFeesParams,
};
#[allow(unused_imports)]
use crate::control::proceed::{connected_peer, resume_control_request};
#[allow(unused_imports)]
use crate::control::request::{
    control_start, control_start_subscriptions, malformed_control_request, node_notifications,
};
use crate::control::request::ControlStep;
#[allow(unused_imports)]
use crate::laws::requests::lemma_first_unknown;
#[allow(unused_imports)]
use crate::laws::service::{is_first_with_id, lemma_first_with_id, lemma_none_with_id};
use crate::lightning::graph::{GraphChannel, NodeId};
#[allow(unused_imports)]
use crate::lightning::hex::hex_text;
use crate::lightning::ldk_service::{
    FoundRoute, LdkChannelFees, LdkChannelInfo, LdkPeerInfo, LdkServiceError, NetworkChannelInfo,
    NetworkNodeInfo, NetworkStats,
};
use crate::lightning::node::{ChannelDetails, GraphNode, NodeCall, NodeReply, PeerDetails};
#[allow(unused_imports)]
use crate::lightning::parse::pubkey_parse;
#[allow(unused_imports)]
use crate::lightning::reports::map_node_info;
#[allow(unused_imports)]
use crate::lightning::scid::parsed_scid;
use crate::lightning::service::LdkService;
#[allow(unused_imports)]
use crate::state::forwarding_store::{get_history, entry_views, ForwardingView};
use crate::state::forwarding_store::{ForwardingEntry, ForwardingStore};
#[allow(unused_imports)]
use crate::state::subscription_store::subscribed;
#[allow(unused_imports)]
use crate::text::{opt_str, opt_text, texts};
#[allow(unused_imports)]
use crate::views::views;

verus! {

/// Every control method goes by its own name.
pub proof fn control_methods_go_by_their_names(name: Seq<char>)
    ensures
        name == "connect_peer"@ ==> control_named(name) == Some(ControlMethod::ConnectPeer),
        name == "open_channel"@ ==> control_named(name) == Some(ControlMethod::OpenChannel),
        name == "close_channel"@ ==> control_named(name) == Some(ControlMethod::CloseChannel),
        name == "list_channels"@ ==> control_named(name) == Some(ControlMethod::ListChannels),
        name == "list_peers"@ ==> control_named(name) == Some(ControlMethod::ListPeers),
        name == "disconnect_peer"@ ==> control_named(name) == Some(ControlMethod::DisconnectPeer),
        name == "subscribe_notifications"@ ==> control_named(name) == Some(ControlMethod::SubscribeNotifications),
        name == "get_channel_fees"@ ==> control_named(name) == Some(ControlMethod::GetChannelFees),
        name == "set_channel_fees"@ ==> control_named(name) == Some(ControlMethod::SetChannelFees),
        name == "list_network_nodes"@ ==> control_named(name) == Some(ControlMethod::ListNetworkNodes),
        name == "get_network_node"@ ==> control_named(name) == Some(ControlMethod::GetNetworkNode),
        name == "get_network_stats"@ ==> control_named(name) == Some(ControlMethod::GetNetworkStats),
        name == "get_network_channel"@ ==> control_named(name) == Some(ControlMethod::GetNetworkChannel),
        name == "get_forwarding_history"@ ==> control_named(name) == Some(ControlMethod::GetForwardingHistory),
        name == "get_pending_htlcs"@ ==> control_named(name) == Some(ControlMethod::GetPendingHtlcs),
        name == "estimate_route_fee"@ ==> control_named(name) == Some(ControlMethod::EstimateRouteFee),
        name == "query_routes"@ ==> control_named(name) == Some(ControlMethod::QueryRoutes),
{
    reveal_strlit("connect_peer");
    assert("connect_peer"@.len() == 12);
    reveal_strlit("open_channel");
    assert("open_channel"@.len() == 12);
    reveal_strlit("close_channel");
    assert("close_channel"@.len() == 13);
    reveal_strlit("list_channels");
    assert("list_channels"@.len() == 13);
    reveal_strlit("list_peers");
    assert("list_peers"@.len() == 10);
    reveal_strlit("disconnect_peer");
    assert("disconnect_peer"@.len() == 15);
    reveal_strlit("subscribe_notifications");
    assert("subscribe_notifications"@.len() == 23);
    reveal_strlit("get_channel_fees");
    assert("get_channel_fees"@.len() == 16);
    reveal_strlit("set_channel_fees");
    assert("set_channel_fees"@.len() == 16);
    reveal_strlit("list_network_nodes");
    assert("list_network_nodes"@.len() == 18);
    reveal_strlit("get_network_node");
    assert("get_network_node"@.len() == 16);
    reveal_strlit("get_network_stats");
    assert("get_network_stats"@.len() == 17);
    reveal_strlit("get_network_channel");
    assert("get_network_channel"@.len() == 19);
    reveal_strlit("get_forwarding_history");
    assert("get_forwarding_history"@.len() == 22);
    reveal_strlit("get_pending_htlcs");
    assert("get_pending_htlcs"@.len() == 17);
    reveal_strlit("estimate_route_fee");
    assert("estimate_route_fee"@.len() == 18);
    reveal_strlit("query_routes");
    assert("query_routes"@.len() == 12);
    assert("open_channel"@[0] != "connect_peer"@[0]);
    assert("list_channels"@[0] != "close_channel"@[0]);
    assert("set_channel_fees"@[0] != "get_channel_fees"@[0]);
    assert("get_network_node"@[4] != "get_channel_fees"@[4]);
    assert("get_network_node"@[0] != "set_channel_fees"@[0]);
    assert("get_pending_htlcs"@[4] != "get_network_stats"@[4]);
    assert("estimate_route_fee"@[0] != "list_network_nodes"@[0]);
    assert("query_routes"@[0] != "connect_peer"@[0]);
    assert("query_routes"@[0] != "open_channel"@[0]);
}

/// A profile lets its client call a control method: it lists the method, or all
/// of them, among its control methods.
pub open spec fn permits<R>(profile: Option<UsageProfile<R>>, name: Seq<char>) -> bool {
    profile matches Some(p) && p.control matches Some(rules) && exists|i: int|
        0 <= i < rules@.len() && ((#[trigger] rules@[i]).0@ == name || rules@[i].0@ == "ALL"@)
}

/// A client may call a control method exactly if its profile permits it. One
/// without a profile is not authorized; any other is restricted.
pub proof fn control_methods_need_permission<R>(
    profile: UsageProfile<R>,
    name: &str,
    known: Result<(), ControlError>,
    unknown: Result<(), ControlError>,
)
    requires
        call_ensures(authorize_control_method::<R>, (Some(&profile), name), known),
        call_ensures(authorize_control_method::<R>, (None, name), unknown),
    ensures
        known is Ok <==> permits(Some(profile), name@),
        known matches Err(e) ==> e.code@ == "RESTRICTED"@,
        unknown matches Err(e) && e.code@ == "UNAUTHORIZED"@,
{
    if permits(Some(profile), name@) {
        let rules = profile.control->0;
        let i = choose|i: int|
            0 <= i < rules@.len() && ((#[trigger] rules@[i]).0@ == name@ || rules@[i].0@ == "ALL"@);
        assert(rules@[i].0@ == name@ || rules@[i].0@ == "ALL"@);
    }
}

proof fn lemma_permits<R>(profile: Option<UsageProfile<R>>, name: Seq<char>)
    ensures
        permits(profile, name) <==> crate::control::messages::control_denial(profile, name) is None,
{
    if permits(profile, name) {
        let rules = profile->0.control->0;
        let i = choose|i: int|
            0 <= i < rules@.len() && ((#[trigger] rules@[i]).0@ == name || rules@[i].0@ == "ALL"@);
        assert(rules@[i].0@ == name || rules@[i].0@ == "ALL"@);
    }
}

/// The step tells an error with the given code under the given method.
pub open spec fn tells_error(step: ControlStep, method: Seq<char>, code: Seq<char>) -> bool {
    step matches ControlStep::Done(r) && r.result_type@ == method && r.result is None && (
    r.error matches Some(e) && e.code@ == code)
}

/// The step tells a result under the given method.
pub open spec fn tells_result(step: ControlStep, method: Seq<char>) -> bool {
    step matches ControlStep::Done(r) && r.result_type@ == method && r.result is Some
        && r.error is None
}

/// What the step tells.
pub open spec fn told(step: ControlStep) -> ControlResult {
    step->Done_0.result->0
}

/// A client without permission is refused, and changes nothing; with it, a method
/// that does not exist is told to be so.
pub proof fn refused_clients_change_nothing<R>(
    request: ControlRequest,
    profile: Option<UsageProfile<R>>,
    attached: bool,
    forwards: Seq<ForwardingView>,
    step: ControlStep,
    client: Seq<char>,
    before: Map<Seq<char>, Set<Seq<char>>>,
)
    requires
        step@ == control_start(request, profile, attached, forwards),
    ensures
        profile is None ==> tells_error(step, request.method@, "UNAUTHORIZED"@),
        profile is Some && !permits(profile, request.method@) ==> tells_error(
            step,
            request.method@,
            "RESTRICTED"@,
        ),
        !permits(profile, request.method@) ==> control_start_subscriptions(
            before,
            client,
            request,
            profile,
        ) == before,
        permits(profile, request.method@) && control_named(request.method@) is None ==> tells_error(
            step,
            request.method@,
            "NOT_IMPLEMENTED"@,
        ),
{
    lemma_permits(profile, request.method@);
}

/// A channel is opened with the node, host and amounts that were named; without a
/// host, the peers are asked for first. There is none of nothing.
pub proof fn open_channel_asks_to_open<R>(
    request: ControlRequest,
    p: OpenChannelParams,
    profile: Option<UsageProfile<R>>,
    forwards: Seq<ForwardingView>,
    step: ControlStep,
    service: LdkService,
    pubkey: &str,
    host: &str,
    asked: Result<NodeCall, LdkServiceError>,
)
    requires
        step@ == control_start(request, profile, true, forwards),
        request.method@ == "open_channel"@,
        permits(profile, request.method@),
        request.params == ControlParams::OpenChannel(Ok(p)),
        pubkey@ == p.pubkey@,
        call_ensures(
            LdkService::open_channel,
            (&service, pubkey, host, p.amount, p.push_amount),
            asked,
        ),
    ensures
        p.amount == 0 ==> tells_error(step, "open_channel"@, "OTHER"@),
        p.amount > 0 && p.host is None ==> step matches ControlStep::Ask(NodeCall::ListPeers),
        p.amount > 0 && opt_text(p.host) == Some(host@) ==> {
            &&& asked matches Ok(call) ==> (step matches ControlStep::Ask(c) && c@ == call@)
            &&& asked is Err ==> tells_error(step, "open_channel"@, "OTHER"@)
        },
{
    lemma_permits(profile, request.method@);
    control_methods_go_by_their_names(request.method@);
}

/// A peer is connected to, or disconnected from, as it was named.
pub proof fn peers_are_connected_as_named<R>(
    request: ControlRequest,
    profile: Option<UsageProfile<R>>,
    forwards: Seq<ForwardingView>,
    step: ControlStep,
    service: LdkService,
    pubkey: &str,
    host: &str,
    connect: Result<NodeCall, LdkServiceError>,
    disconnect: Result<NodeCall, LdkServiceError>,
)
    requires
        step@ == control_start(request, profile, true, forwards),
        permits(profile, request.method@),
        call_ensures(LdkService::connect_peer, (&service, pubkey, host), connect),
        call_ensures(LdkService::disconnect_peer, (&service, pubkey), disconnect),
    ensures
        request.method@ == "connect_peer"@ ==> (request.params matches ControlParams::ConnectPeer(
            Ok(p),
        ) ==> (p.pubkey@ == pubkey@ && p.host@ == host@ ==> {
            &&& connect matches Ok(call) ==> (step matches ControlStep::Ask(c) && c@ == call@)
            &&& connect is Err ==> tells_error(step, "connect_peer"@, "OTHER"@)
        })),
        request.method@ == "disconnect_peer"@ ==> (request.params matches ControlParams::DisconnectPeer(
            Ok(p),
        ) ==> (p.pubkey@ == pubkey@ ==> {
            &&& disconnect matches Ok(call) ==> (step matches ControlStep::Ask(c) && c@ == call@)
            &&& disconnect is Err ==> tells_error(step, "disconnect_peer"@, "OTHER"@)
        })),
{
    lemma_permits(profile, request.method@);
    control_methods_go_by_their_names(request.method@);
}

/// What is told of the node, its channels and peers and the network is asked of
/// the node first.
pub proof fn reports_ask_the_node_first<R>(
    request: ControlRequest,
    profile: Option<UsageProfile<R>>,
    forwards: Seq<ForwardingView>,
    step: ControlStep,
)
    requires
        step@ == control_start(request, profile, true, forwards),
        permits(profile, request.method@),
    ensures
        request.method@ == "list_channels"@ && request.params is Empty
            ==> step matches ControlStep::Ask(NodeCall::ListChannels),
        request.method@ == "list_peers"@ && request.params is Empty
            ==> step matches ControlStep::Ask(NodeCall::ListPeers),
        request.method@ == "get_network_stats"@ && request.params is Empty
            ==> step matches ControlStep::Ask(NodeCall::ReadNetwork),
        request.method@ == "close_channel"@ ==> (request.params matches ControlParams::CloseChannel(
            Ok(_),
        ) ==> step matches ControlStep::Ask(NodeCall::ListChannels)),
        request.method@ == "get_channel_fees"@ ==> (
        request.params matches ControlParams::GetChannelFees(Ok(_)) ==> step matches ControlStep::Ask(
            NodeCall::ListChannels,
        )),
        request.method@ == "set_channel_fees"@ ==> (
        request.params matches ControlParams::SetChannelFees(Ok(_)) ==> step matches ControlStep::Ask(
            NodeCall::ListChannels,
        )),
        request.method@ == "list_network_nodes"@ ==> (
        request.params matches ControlParams::ListNetworkNodes(Ok(_))
            ==> step matches ControlStep::Ask(NodeCall::ListNodeIds)),
        request.method@ == "get_network_node"@ ==> (
        request.params matches ControlParams::GetNetworkNode(Ok(p)) ==> {
            &&& pubkey_parse(p.pubkey@) matches Ok(id) ==> (step matches ControlStep::Ask(
                NodeCall::ReadNodes { ids },
            ) && ids@ == seq![id])
            &&& pubkey_parse(p.pubkey@) is Err ==> tells_error(step, "get_network_node"@, "OTHER"@)
        }),
        request.method@ == "get_network_channel"@ ==> (
        request.params matches ControlParams::GetNetworkChannel(Ok(p)) ==> {
            &&& parsed_scid(p.short_channel_id@) matches Some(id) ==> (
            step matches ControlStep::Ask(NodeCall::ReadChannel { scid }) && scid == id)
            &&& parsed_scid(p.short_channel_id@) is None ==> tells_error(
                step,
                "get_network_channel"@,
                "OTHER"@,
            )
        }),
{
    lemma_permits(profile, request.method@);
    control_methods_go_by_their_names(request.method@);
}

/// Without a node, lists are empty and figures zero, and what only a node can do
/// is not done.
pub proof fn controllers_without_a_node_make_do<R>(
    request: ControlRequest,
    profile: Option<UsageProfile<R>>,
    forwards: Seq<ForwardingView>,
    step: ControlStep,
)
    requires
        step@ == control_start(request, profile, false, forwards),
        permits(profile, request.method@),
    ensures
        request.method@ == "list_channels"@ && request.params is Empty ==> tells_result(
            step,
            request.method@,
        ) && (told(step) matches ControlResult::Channels(list) && list@.len() == 0),
        request.method@ == "list_peers"@ && request.params is Empty ==> tells_result(
            step,
            request.method@,
        ) && (told(step) matches ControlResult::Peers(list) && list@.len() == 0),
        request.method@ == "get_network_stats"@ && request.params is Empty ==> tells_result(
            step,
            request.method@,
        ) && (told(step) matches ControlResult::Stats(s) && s.num_nodes == 0 && s.num_channels == 0
            && s.total_capacity == 0 && s.avg_channel_size == 0 && s.max_channel_size == 0),
        request.method@ == "open_channel"@ && (request.params matches ControlParams::OpenChannel(
            Ok(_),
        )) || request.method@ == "close_channel"@ && (
        request.params matches ControlParams::CloseChannel(Ok(_))) || request.method@
            == "connect_peer"@ && (request.params matches ControlParams::ConnectPeer(Ok(_)))
            || request.method@ == "disconnect_peer"@ && (
        request.params matches ControlParams::DisconnectPeer(Ok(_))) || request.method@
            == "set_channel_fees"@ && (request.params matches ControlParams::SetChannelFees(Ok(_)))
            || request.method@ == "get_network_node"@ && (
        request.params matches ControlParams::GetNetworkNode(Ok(_))) || request.method@
            == "get_network_channel"@ && (request.params matches ControlParams::GetNetworkChannel(
            Ok(_),
        )) ==> tells_error(step, request.method@, "OTHER"@),
{
    lemma_permits(profile, request.method@);
    control_methods_go_by_their_names(request.method@);
    if let ControlStep::Done(r) = step {
        match r.result {
            Some(ControlResult::Channels(list)) => {
                assert(views(list@).len() == list@.len());
            },
            Some(ControlResult::Peers(list)) => {
                assert(views(list@).len() == list@.len());
            },
            _ => {},
        }
    }
}

/// The history of forwards is told as the store tells it for the times and the
/// page that are asked for.
pub proof fn the_history_is_told_as_recorded<R>(
    request: ControlRequest,
    p: GetForwardingHistoryParams,
    profile: Option<UsageProfile<R>>,
    attached: bool,
    store: ForwardingStore,
    step: ControlStep,
    history: Vec<ForwardingEntry>,
)
    requires
        step@ == control_start(request, profile, attached, store@),
        request.method@ == "get_forwarding_history"@,
        permits(profile, request.method@),
        request.params == ControlParams::GetForwardingHistory(Ok(p)),
        call_ensures(get_history, (&store, p.from, p.until, p.limit, p.offset), history),
    ensures
        tells_result(step, "get_forwarding_history"@),
        told(step) matches ControlResult::Forwards(list) && entry_views(list@) == entry_views(
            history@,
        ),
{
    lemma_permits(profile, request.method@);
    control_methods_go_by_their_names(request.method@);
}

/// Every forward that the history tells is a recorded one of the times that are
/// asked for. No more are told than asked for, and all where nothing is left out.
pub proof fn the_history_keeps_to_its_times(
    store: ForwardingStore,
    from: Option<u64>,
    until: Option<u64>,
    limit: usize,
    offset: usize,
    history: Vec<ForwardingEntry>,
    i: int,
)
    requires
        call_ensures(get_history, (&store, from, until, limit, offset), history),
    ensures
        history@.len() <= limit,
        0 <= i < history@.len() ==> {
            &&& store@.contains(history@[i]@)
            &&& from matches Some(t) ==> history@[i].settled_at >= t
            &&& until matches Some(t) ==> history@[i].settled_at <= t
        },
        from is None && until is None && offset == 0 && store@.len() <= limit ==> entry_views(
            history@,
        ) == store@,
{
    let keep = crate::state::forwarding_store::settled_within(from, until);
    let all = store@.filter(keep);
    assert(entry_views(history@).len() == history@.len());
    if 0 <= i < history@.len() {
        assert(entry_views(history@)[i] == history@[i]@);
        assert(history@[i]@ == all[offset + i]);
        store@.lemma_filter_pred(keep, offset + i);
        assert(all.contains(history@[i]@));
        store@.lemma_filter_contains_rev(keep, history@[i]@);
    }
    if from is None && until is None && offset == 0 && store@.len() <= limit {
        lemma_filter_all(store@, keep);
        assert(entry_views(history@) =~= store@);
    }
}

proof fn lemma_filter_all<T>(s: Seq<T>, keep: spec_fn(T) -> bool)
    requires
        forall|t: T| #[trigger] keep(t),
    ensures
        s.filter(keep) == s,
    decreases s.len(),
{
    reveal(Seq::filter);
    if s.len() > 0 {
        lemma_filter_all(s.drop_last(), keep);
        assert(s.drop_last().push(s.last()) =~= s);
    } else {
        assert(s.filter(keep) =~= s);
    }
}

/// A node client can be told of channels that open and close.
pub open spec fn is_node_event(kind: Seq<char>) -> bool {
    kind == "channel_opened"@ || kind == "channel_closed"@
}

/// A client that asks to be told of events of the node that exist is from then on
/// told of exactly those; one that asks for others gets an error and keeps what
/// it had. No other client is touched.
pub proof fn clients_subscribe_to_node_events<R>(
    request: ControlRequest,
    types: Seq<String>,
    profile: Option<UsageProfile<R>>,
    attached: bool,
    forwards: Seq<ForwardingView>,
    step: ControlStep,
    client: Seq<char>,
    before: Map<Seq<char>, Set<Seq<char>>>,
    other: Seq<char>,
    kind: Seq<char>,
)
    requires
        step@ == control_start(request, profile, attached, forwards),
        request.method@ == "subscribe_notifications"@,
        permits(profile, request.method@),
        request.params matches ControlParams::SubscribeNotifications(Ok(p)) && p.types@ == types,
    ensures
        ({
            let after = control_start_subscriptions(before, client, request, profile);
            &&& (forall|i: int| 0 <= i < types.len() ==> is_node_event((#[trigger] types[i])@)) ==> {
                &&& tells_result(step, request.method@)
                &&& subscribed(after, client, kind) <==> exists|i: int|
                    0 <= i < types.len() && (#[trigger] types[i])@ == kind
            }
            &&& (exists|i: int| 0 <= i < types.len() && !is_node_event((#[trigger] types[i])@)) ==> {
                &&& tells_error(step, request.method@, "OTHER"@)
                &&& after == before
            }
            &&& other != client ==> (subscribed(after, other, kind) <==> subscribed(
                before,
                other,
                kind,
            ))
        }),
{
    lemma_permits(profile, request.method@);
    control_methods_go_by_their_names(request.method@);
    let names = texts(types);
    let known = node_notifications();
    lemma_first_unknown(names, known);
    assert(known[0] == "channel_opened"@ && known[1] == "channel_closed"@);
    assert forall|k: Seq<char>| #[trigger] known.contains(k) == is_node_event(k) by {
        if known.contains(k) {
            let i = choose|i: int| 0 <= i < known.len() && known[i] == k;
            assert(i == 0 || i == 1);
        }
    }
    if forall|i: int| 0 <= i < types.len() ==> is_node_event((#[trigger] types[i])@) {
        assert forall|i: int| 0 <= i < names.len() implies known.contains(#[trigger] names[i]) by {
            assert(names[i] == types[i]@);
        }
        assert(names.to_set().contains(kind) <==> exists|i: int|
            0 <= i < types.len() && (#[trigger] types[i])@ == kind) by {
            if names.to_set().contains(kind) {
                let i = choose|i: int| 0 <= i < names.len() && names[i] == kind;
                assert(types[i]@ == kind);
            }
            if exists|i: int| 0 <= i < types.len() && (#[trigger] types[i])@ == kind {
                let i = choose|i: int| 0 <= i < types.len() && (#[trigger] types[i])@ == kind;
                assert(names[i] == kind);
                assert(names.contains(kind));
            }
        }
    } else {
        let i = choose|i: int| 0 <= i < types.len() && !is_node_event((#[trigger] types[i])@);
        assert(names[i] == types[i]@);
        assert(!known.contains(names[i]));
    }
}

/// A query for routes, or for the fee of one, needs a destination and an amount;
/// with them it reads the network, and without a node it finds no route.
pub proof fn route_queries_need_a_destination_and_an_amount<R>(
    request: ControlRequest,
    p: RouteParams,
    profile: Option<UsageProfile<R>>,
    attached: bool,
    forwards: Seq<ForwardingView>,
    step: ControlStep,
)
    requires
        step@ == control_start(request, profile, attached, forwards),
        request.method@ == "query_routes"@ || request.method@ == "estimate_route_fee"@,
        permits(profile, request.method@),
        request.params == ControlParams::Route(p),
    ensures
        (p.destination matches Some(d) && d@.len() > 0) && (p.amount matches Some(n) && n > 0) ==> {
            &&& attached ==> (step matches ControlStep::Ask(NodeCall::ReadNetwork))
            &&& !attached ==> tells_error(step, request.method@, "NOT_FOUND"@)
        },
        !((p.destination matches Some(d) && d@.len() > 0) && (p.amount matches Some(n) && n > 0))
            ==> {
            &&& attached ==> tells_error(step, request.method@, "OTHER"@)
            &&& !attached ==> tells_error(step, request.method@, "NOT_IMPLEMENTED"@)
        },
{
    lemma_permits(profile, request.method@);
    control_methods_go_by_their_names(request.method@);
}

/// The channels of the node are told as the service tells them.
pub proof fn channels_are_told_over_control(
    request: ControlRequest,
    service: LdkService,
    channels: Vec<ChannelDetails>,
    step: ControlStep,
    infos: Vec<LdkChannelInfo>,
)
    requires
        call_ensures(
            resume_control_request,
            (&request, &service, &NodeCall::ListChannels, NodeReply::Channels(channels)),
            step,
        ),
        request.method@ == "list_channels"@,
        request.params is Empty,
        forall|i: int|
            0 <= i < channels@.len() ==> (#[trigger] channels@[i]).channel_value_sats * 1000
                <= u64::MAX,
        call_ensures(LdkService::list_channels, (&service, &channels), infos),
    ensures
        tells_result(step, "list_channels"@),
        told(step) matches ControlResult::Channels(list) && views(list@) == views(infos@),
{
    control_methods_go_by_their_names(request.method@);
}

/// The peers of the node are told as the service tells them, with all channels of
/// the node.
pub proof fn peers_are_told_over_control(
    request: ControlRequest,
    service: LdkService,
    peers: Vec<PeerDetails>,
    channels: Vec<ChannelDetails>,
    step: ControlStep,
    infos: Vec<LdkPeerInfo>,
)
    requires
        call_ensures(
            resume_control_request,
            (&request, &service, &NodeCall::ListPeers, NodeReply::Peers { peers, channels }),
            step,
        ),
        request.method@ == "list_peers"@,
        request.params is Empty,
        call_ensures(LdkService::list_peers, (&service, &peers, &channels), infos),
    ensures
        tells_result(step, "list_peers"@),
        told(step) matches ControlResult::Peers(list) && views(list@) == views(infos@),
{
    control_methods_go_by_their_names(request.method@);
}

/// The fees of the channel that is named, or of all, are told as the service
/// tells them.
pub proof fn fees_are_told_over_control(
    request: ControlRequest,
    p: GetChannelFeesParams,
    service: LdkService,
    channels: Vec<ChannelDetails>,
    step: ControlStep,
    id: Option<&str>,
    fees: Vec<LdkChannelFees>,
)
    requires
        call_ensures(
            resume_control_request,
            (&request, &service, &NodeCall::ListChannels, NodeReply::Channels(channels)),
            step,
        ),
        request.method@ == "get_channel_fees"@,
        request.params == ControlParams::GetChannelFees(Ok(p)),
        opt_str(id) == opt_text(p.id),
        call_ensures(LdkService::get_channel_fees, (&service, &channels, id), fees),
    ensures
        tells_result(step, "get_channel_fees"@),
        told(step) matches ControlResult::Fees(list) && views(list@) == views(fees@),
{
    control_methods_go_by_their_names(request.method@);
}

/// The channel that is named is closed, by force exactly if that is asked for; an
/// unknown one is told to be so.
pub proof fn the_named_channel_is_closed_over_control(
    request: ControlRequest,
    p: CloseChannelParams,
    service: LdkService,
    channels: Vec<ChannelDetails>,
    step: ControlStep,
    i: int,
)
    requires
        call_ensures(
            resume_control_request,
            (&request, &service, &NodeCall::ListChannels, NodeReply::Channels(channels)),
            step,
        ),
        request.method@ == "close_channel"@,
        request.params == ControlParams::CloseChannel(Ok(p)),
    ensures
        is_first_with_id(channels@, p.id@, i) ==> {
            &&& p.force ==> (step matches ControlStep::Ask(
                NodeCall::ForceCloseChannel { user_channel_id, counterparty, .. },
            ) && user_channel_id == channels@[i].user_channel_id && counterparty
                == channels@[i].counterparty)
            &&& !p.force ==> (step matches ControlStep::Ask(
                NodeCall::CloseChannel { user_channel_id, counterparty },
            ) && user_channel_id == channels@[i].user_channel_id && counterparty
                == channels@[i].counterparty)
        },
        (forall|j: int| 0 <= j < channels@.len() ==> (#[trigger] channels@[j]).channel_id@ != p.id@)
            ==> tells_error(step, "close_channel"@, "OTHER"@),
{
    control_methods_go_by_their_names(request.method@);
    if is_first_with_id(channels@, p.id@, i) {
        lemma_first_with_id(channels@, p.id@, i);
    }
    if forall|j: int| 0 <= j < channels@.len() ==> (#[trigger] channels@[j]).channel_id@ != p.id@ {
        lemma_none_with_id(channels@, p.id@);
    }
}

/// The fees of the channel that is named are set to what was named, and kept
/// where nothing was; an unknown channel is not found.
pub proof fn the_named_fees_are_set_over_control(
    request: ControlRequest,
    p: SetChannelFeesParams,
    service: LdkService,
    channels: Vec<ChannelDetails>,
    step: ControlStep,
    i: int,
)
    requires
        call_ensures(
            resume_control_request,
            (&request, &service, &NodeCall::ListChannels, NodeReply::Channels(channels)),
            step,
        ),
        request.method@ == "set_channel_fees"@,
        request.params == ControlParams::SetChannelFees(Ok(p)),
    ensures
        is_first_with_id(channels@, p.id@, i) ==> (step matches ControlStep::Ask(
            NodeCall::UpdateChannelFees { user_channel_id, counterparty, base_fee_msat, fee_rate },
        ) && {
            &&& user_channel_id == channels@[i].user_channel_id
            &&& counterparty == channels@[i].counterparty
            &&& p.base_fee_msat matches Some(b) ==> base_fee_msat == b
            &&& p.base_fee_msat is None ==> base_fee_msat == channels@[i].forwarding_fee_base_msat
            &&& p.fee_rate matches Some(r) ==> fee_rate == r
            &&& p.fee_rate is None ==> fee_rate
                == channels@[i].forwarding_fee_proportional_millionths
        }),
        (forall|j: int| 0 <= j < channels@.len() ==> (#[trigger] channels@[j]).channel_id@ != p.id@)
            ==> tells_error(step, "set_channel_fees"@, "NOT_FOUND"@),
{
    control_methods_go_by_their_names(request.method@);
    if is_first_with_id(channels@, p.id@, i) {
        lemma_first_with_id(channels@, p.id@, i);
    }
    if forall|j: int| 0 <= j < channels@.len() ==> (#[trigger] channels@[j]).channel_id@ != p.id@ {
        lemma_none_with_id(channels@, p.id@);
    }
}

/// The peer at place `i` is the first connected one with the public key.
pub open spec fn is_connected_peer(peers: Seq<PeerDetails>, pubkey: Seq<char>, i: int) -> bool {
    &&& 0 <= i < peers.len()
    &&& peers[i].is_connected
    &&& hex_text(peers[i].node_id.bytes@) == pubkey
    &&& forall|j: int|
        0 <= j < i ==> !(#[trigger] peers[j]).is_connected || hex_text(peers[j].node_id.bytes@)
            != pubkey
}

proof fn lemma_connected_peer(peers: Seq<PeerDetails>, pubkey: Seq<char>, i: int)
    requires
        is_connected_peer(peers, pubkey, i),
    ensures
        connected_peer(peers, pubkey) == Some(peers[i]),
    decreases i,
{
    if i > 0 {
        assert(!peers[0].is_connected || hex_text(peers[0].node_id.bytes@) != pubkey);
        let rest = peers.skip(1);
        assert forall|j: int| 0 <= j < i - 1 implies !(#[trigger] rest[j]).is_connected || hex_text(
            rest[j].node_id.bytes@,
        ) != pubkey by {
            assert(rest[j] == peers[j + 1]);
        }
        assert(rest[i - 1] == peers[i]);
        lemma_connected_peer(rest, pubkey, i - 1);
    }
}

proof fn lemma_no_connected_peer(peers: Seq<PeerDetails>, pubkey: Seq<char>)
    requires
        forall|j: int|
            0 <= j < peers.len() ==> !(#[trigger] peers[j]).is_connected || hex_text(
                peers[j].node_id.bytes@,
            ) != pubkey,
    ensures
        connected_peer(peers, pubkey) is None,
    decreases peers.len(),
{
    if peers.len() > 0 {
        assert(!peers[0].is_connected || hex_text(peers[0].node_id.bytes@) != pubkey);
        let rest = peers.skip(1);
        assert forall|j: int| 0 <= j < rest.len() implies !(#[trigger] rest[j]).is_connected
            || hex_text(rest[j].node_id.bytes@) != pubkey by {
            assert(rest[j] == peers[j + 1]);
        }
        lemma_no_connected_peer(rest, pubkey);
    }
}

/// Without a host, a channel is opened at the address of the connected peer with
/// the key that was named; where there is none, nothing is opened.
pub proof fn channels_open_to_connected_peers(
    request: ControlRequest,
    p: OpenChannelParams,
    service: LdkService,
    peers: Vec<PeerDetails>,
    channels: Vec<ChannelDetails>,
    step: ControlStep,
    i: int,
    pubkey: &str,
    host: &str,
    asked: Result<NodeCall, LdkServiceError>,
)
    requires
        call_ensures(
            resume_control_request,
            (&request, &service, &NodeCall::ListPeers, NodeReply::Peers { peers, channels }),
            step,
        ),
        request.method@ == "open_channel"@,
        request.params == ControlParams::OpenChannel(Ok(p)),
        pubkey@ == p.pubkey@,
        call_ensures(
            LdkService::open_channel,
            (&service, pubkey, host, p.amount, p.push_amount),
            asked,
        ),
    ensures
        is_connected_peer(peers@, p.pubkey@, i) && host@ == peers@[i].address@ ==> {
            &&& asked matches Ok(call) ==> (step matches ControlStep::Ask(c) && c@ == call@)
            &&& asked is Err ==> tells_error(step, "open_channel"@, "OTHER"@)
        },
        (forall|j: int|
            0 <= j < peers@.len() ==> !(#[trigger] peers@[j]).is_connected || hex_text(
                peers@[j].node_id.bytes@,
            ) != p.pubkey@) ==> tells_error(step, "open_channel"@, "OTHER"@),
{
    control_methods_go_by_their_names(request.method@);
    if is_connected_peer(peers@, p.pubkey@, i) {
        lemma_connected_peer(peers@, p.pubkey@, i);
    }
    if forall|j: int|
        0 <= j < peers@.len() ==> !(#[trigger] peers@[j]).is_connected || hex_text(
            peers@[j].node_id.bytes@,
        ) != p.pubkey@ {
        lemma_no_connected_peer(peers@, p.pubkey@);
    }
}

/// An operation that the node carried out is told to be so; one that it could not
/// is told as an error.
pub proof fn operations_are_told_as_they_went(
    request: ControlRequest,
    service: LdkService,
    call: NodeCall,
    went: Result<(), String>,
    step: ControlStep,
)
    requires
        call_ensures(
            resume_control_request,
            (&request, &service, &call, NodeReply::Done(went)),
            step,
        ),
        (request.method@ == "open_channel"@ && call is OpenChannel && (
        request.params matches ControlParams::OpenChannel(Ok(_)))) || (request.method@
            == "connect_peer"@ && call is ConnectPeer && (
        request.params matches ControlParams::ConnectPeer(Ok(_)))) || (request.method@
            == "disconnect_peer"@ && call is DisconnectPeer && (
        request.params matches ControlParams::DisconnectPeer(Ok(_)))) || (request.method@
            == "close_channel"@ && (call is CloseChannel || call is ForceCloseChannel) && (
        request.params matches ControlParams::CloseChannel(Ok(_)))) || (request.method@
            == "set_channel_fees"@ && call is UpdateChannelFees && (
        request.params matches ControlParams::SetChannelFees(Ok(_)))),
    ensures
        went is Ok ==> tells_result(step, request.method@),
        went is Ok ==> (told(step) is Connected <==> request.method@ == "connect_peer"@),
        went is Ok ==> (told(step) is Disconnected <==> request.method@ == "disconnect_peer"@),
        went is Err ==> tells_error(step, request.method@, "OTHER"@),
{
    control_methods_go_by_their_names(request.method@);
    reveal_strlit("open_channel");
    reveal_strlit("connect_peer");
    reveal_strlit("disconnect_peer");
    reveal_strlit("close_channel");
    reveal_strlit("set_channel_fees");
    assert("open_channel"@[0] != "connect_peer"@[0]);
}

/// The nodes of the network are read page by page, as the service asks for them.
pub proof fn nodes_are_read_by_pages(
    request: ControlRequest,
    p: ListNetworkNodesParams,
    service: LdkService,
    ids: Vec<NodeId>,
    step: ControlStep,
    page: NodeCall,
)
    requires
        call_ensures(
            resume_control_request,
            (&request, &service, &NodeCall::ListNodeIds, NodeReply::NodeIds(ids)),
            step,
        ),
        request.method@ == "list_network_nodes"@,
        request.params == ControlParams::ListNetworkNodes(Ok(p)),
        call_ensures(LdkService::page_network_nodes, (&service, &ids, p.limit, p.offset), page),
    ensures
        step matches ControlStep::Ask(call) && call@ == page@,
{
    control_methods_go_by_their_names(request.method@);
}

/// The nodes that were read are told as the service tells them.
pub proof fn nodes_are_told_over_control(
    request: ControlRequest,
    p: ListNetworkNodesParams,
    service: LdkService,
    call: NodeCall,
    nodes: Vec<Option<GraphNode>>,
    step: ControlStep,
    infos: Vec<NetworkNodeInfo>,
)
    requires
        call_ensures(
            resume_control_request,
            (&request, &service, &call, NodeReply::Nodes(nodes)),
            step,
        ),
        call is ReadNodes,
        request.method@ == "list_network_nodes"@,
        request.params == ControlParams::ListNetworkNodes(Ok(p)),
        call_ensures(LdkService::list_network_nodes, (&service, &nodes), Some(infos)),
    ensures
        tells_result(step, "list_network_nodes"@),
        told(step) matches ControlResult::Nodes(list) && views(list@) == views(infos@),
{
    control_methods_go_by_their_names(request.method@);
}

/// A node or a channel of the network that the graph holds is told as the service
/// tells it; any other is not found.
pub proof fn nodes_and_channels_are_found_over_control(
    request: ControlRequest,
    service: LdkService,
    call: NodeCall,
    nodes: Vec<Option<GraphNode>>,
    node_step: ControlStep,
    found: Option<GraphChannel>,
    channel_step: ControlStep,
    info: NetworkNodeInfo,
    channel: GraphChannel,
    channel_info: NetworkChannelInfo,
    scid: u64,
)
    requires
        call_ensures(
            resume_control_request,
            (&request, &service, &call, NodeReply::Nodes(nodes)),
            node_step,
        ),
        call_ensures(
            resume_control_request,
            (&request, &service, &NodeCall::ReadChannel { scid }, NodeReply::Channel(found)),
            channel_step,
        ),
        call_ensures(LdkService::describe_network_channel, (&service, scid, &channel), channel_info),
    ensures
        request.method@ == "get_network_node"@ && call is ReadNodes ==> (
        request.params matches ControlParams::GetNetworkNode(Ok(_)) ==> {
            &&& nodes@.len() == 0 || nodes@[0] is None ==> tells_error(
                node_step,
                "get_network_node"@,
                "NOT_FOUND"@,
            )
            &&& nodes@.len() > 0 ==> (nodes@[0] matches Some(node) ==> (call_ensures(
                map_node_info,
                (&node,),
                Some(info),
            ) ==> tells_result(node_step, "get_network_node"@) && (
            told(node_step) matches ControlResult::Node(n) && n@ == info@)))
        }),
        request.method@ == "get_network_channel"@ ==> (
        request.params matches ControlParams::GetNetworkChannel(Ok(_)) ==> {
            &&& found is None ==> tells_error(channel_step, "get_network_channel"@, "NOT_FOUND"@)
            &&& found == Some(channel) ==> tells_result(channel_step, "get_network_channel"@) && (
            told(channel_step) matches ControlResult::Channel(c) && c@ == channel_info@)
        }),
{
    control_methods_go_by_their_names(request.method@);
}

/// The figures on the network are told as the service tells them.
pub proof fn figures_are_told_over_control(
    request: ControlRequest,
    service: LdkService,
    num_nodes: usize,
    channels: Vec<Option<GraphChannel>>,
    step: ControlStep,
    figures: NetworkStats,
)
    requires
        call_ensures(
            resume_control_request,
            (&request, &service, &NodeCall::ReadNetwork, NodeReply::Network { num_nodes, channels }),
            step,
        ),
        request.method@ == "get_network_stats"@,
        request.params is Empty,
        call_ensures(LdkService::get_network_stats, (&service, num_nodes, &channels), figures),
    ensures
        tells_result(step, "get_network_stats"@),
        told(step) == ControlResult::Stats(figures),
{
    control_methods_go_by_their_names(request.method@);
}

/// A query tells the routes that the service finds for the destination, the
/// amount and the number that are named, or one if none is; an estimate tells the
/// fee and the time lock of the first. Where there is no route, none is found.
pub proof fn routes_are_told_over_control(
    request: ControlRequest,
    p: RouteParams,
    service: LdkService,
    num_nodes: usize,
    channels: Vec<Option<GraphChannel>>,
    step: ControlStep,
    dest: &str,
    amount: u64,
    max: usize,
    routes: Vec<FoundRoute>,
)
    requires
        call_ensures(
            resume_control_request,
            (&request, &service, &NodeCall::ReadNetwork, NodeReply::Network { num_nodes, channels }),
            step,
        ),
        request.params == ControlParams::Route(p),
        opt_text(p.destination) == Some(dest@),
        p.amount == Some(amount),
        request.method@ == "estimate_route_fee"@ ==> max == 1,
        request.method@ == "query_routes"@ ==> (p.max_routes matches Some(n) ==> n == max),
        request.method@ == "query_routes"@ ==> (p.max_routes is None ==> max == 1),
        call_ensures(
            LdkService::find_routes,
            (&service, &channels, dest, amount, max),
            Some(routes),
        ),
    ensures
        request.method@ == "query_routes"@ && routes@.len() > 0 ==> tells_result(
            step,
            "query_routes"@,
        ) && (told(step) matches ControlResult::Routes(list) && views(list@) == views(routes@)),
        request.method@ == "estimate_route_fee"@ && routes@.len() > 0 ==> tells_result(
            step,
            "estimate_route_fee"@,
        ) && (told(step) matches ControlResult::RouteFee { fee, time_lock_delay } && fee
            == routes@[0].total_fee && time_lock_delay == routes@[0].total_time_lock),
        (request.method@ == "query_routes"@ || request.method@ == "estimate_route_fee"@)
            && routes@.len() == 0 ==> tells_error(step, request.method@, "NOT_FOUND"@),
{
    control_methods_go_by_their_names(request.method@);
    assert(views(routes@).len() == routes@.len());
    if routes@.len() > 0 {
        assert(views(routes@)[0] == routes@[0]@);
    }
}

/// A request that cannot be read is answered with an error.
pub proof fn unreadable_control_requests_are_answered(reason: &str, answer: ControlResponse)
    requires
        call_ensures(malformed_control_request, (reason,), answer),
    ensures
        answer.result is None,
        answer.error matches Some(e) && e.code@ == "OTHER"@ && e.message@
            == "invalid control request payload: "@ + reason@,
        answer.result_type@ == "unknown"@,
{
}

} // verus!
