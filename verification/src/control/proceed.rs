//! Going on with a control request when the node has answered.

use vstd::prelude::*;

#[allow(unused_imports)]
use crate::control::messages::{control_named, ControlResultView};
use crate::control::messages::{
    control_method, ControlMethod, ControlParams, ControlRequest, ControlResult,
    OpenChannelParams, RouteParams, DEFAULT_ROUTES,
};
use crate::control::request::{
    ask_or_tell, tell, tell_error, tell_node_failed, tell_other, ControlStep,
};
#[allow(unused_imports)]
use crate::control::request::{
    ask_node, control_begin, control_done, control_fails, control_other, node_failed, route_amount,
    route_destination, ControlStepView,
};
#[allow(unused_imports)]
use crate::lightning::graph::node_text;
use crate::lightning::graph::{GraphChannel, NodeId};
#[allow(unused_imports)]
use crate::lightning::ldk_service::service_error_text;
use crate::lightning::ldk_service::LdkServiceError;
use crate::lightning::node::{GraphNode, NodeCall, NodeReply, PeerDetails};
#[allow(unused_imports)]
use crate::lightning::node::answers;
#[allow(unused_imports)]
use crate::lightning::parse::pubkey_parse;
use crate::lightning::reports::{check_capacities, map_node_info};
#[allow(unused_imports)]
use crate::lightning::reports::{
    capacities_fit, channel_infos, fee_infos, known_nodes, network_channel_info, network_figures,
    node_fits, node_info, node_infos, nodes_fit, peer_infos, routes_to,
};
use crate::lightning::service::LdkService;
#[allow(unused_imports)]
use crate::lightning::service::{
    close_channel_call, open_channel_call, set_fees_call, CallView, ErrorView,
};
#[allow(unused_imports)]
use crate::state::forwarding_store::ForwardingView;
#[allow(unused_imports)]
use crate::state::page::page;
#[allow(unused_imports)]
use crate::text::opt_text;
use crate::text::{as_slice, copy_text, join, same_text};
#[allow(unused_imports)]
use crate::views::{result_view, views};

verus! {

/// The step after an operation of the node: the result if it went well, or the
/// error.
pub open spec fn after_operation(
    name: Seq<char>,
    went: Result<(), String>,
    result: ControlResultView,
    error: ErrorView,
) -> ControlStepView {
    match went {
        Ok(_) => control_done(name, result),
        Err(_) => node_failed(name, error),
    }
}

/// The message of an operation that failed.
pub open spec fn failure_text(went: Result<(), String>) -> Seq<char> {
    match went {
        Ok(_) => Seq::empty(),
        Err(m) => m@,
    }
}

/// The step that changes the fees of a channel, or tells that there is no such
/// channel.
pub open spec fn set_fees_step(name: Seq<char>, call: Result<CallView, ErrorView>) ->
    ControlStepView {
    match call {
        Ok(call) => ControlStepView::Ask(call),
        Err(e) => control_fails(
            name,
            "NOT_FOUND"@,
            name + " failed: "@ + service_error_text(e),
        ),
    }
}

fn start_set_fees(name: &str, call: Result<NodeCall, LdkServiceError>) -> (out: ControlStep)
    ensures
        out@ == set_fees_step(name@, result_view(call)),
{
    match call {
        Ok(call) => ControlStep::Ask(call),
        Err(e) => {
            let head: String = join(name, " failed: ");
            tell_error(name, "NOT_FOUND", join(head.as_str(), e.to_string().as_str()).as_str())
        },
    }
}

/// The first connected peer with the given public key.
pub open spec fn connected_peer(peers: Seq<PeerDetails>, pubkey: Seq<char>) -> Option<PeerDetails>
    decreases peers.len(),
{
    if peers.len() == 0 {
        None
    } else if node_text(peers[0].node_id) == pubkey && peers[0].is_connected {
        Some(peers[0])
    } else {
        connected_peer(peers.skip(1), pubkey)
    }
}

fn find_connected<'a>(peers: &'a Vec<PeerDetails>, pubkey: &str) -> (out: Option<&'a PeerDetails>)
    ensures
        match out {
            Some(p) => connected_peer(peers@, pubkey@) == Some(*p),
            None => connected_peer(peers@, pubkey@) is None,
        },
{
    let mut i: usize = 0;
    assert(peers@.skip(0) =~= peers@);
    while i < peers.len()
        invariant
            i <= peers.len(),
            connected_peer(peers@, pubkey@) == connected_peer(peers@.skip(i as int), pubkey@),
        decreases peers.len() - i,
    {
        assert(peers@.skip(i as int)[0] == peers@[i as int]);
        assert(peers@.skip(i as int).skip(1) =~= peers@.skip(i + 1));
        if same_text(peers[i].node_id.to_string().as_str(), pubkey) && peers[i].is_connected {
            return Some(&peers[i]);
        }
        i += 1;
    }
    None
}

/// The step that opens a channel to a connected peer.
pub open spec fn open_to_peer(name: Seq<char>, p: OpenChannelParams, peers: Seq<PeerDetails>) ->
    ControlStepView {
    match connected_peer(peers, p.pubkey@) {
        Some(peer) => ask_node(
            name,
            open_channel_call(p.pubkey@, peer.address@, p.amount, p.push_amount),
        ),
        None => control_other(name, "peer not connected and no host provided"@),
    }
}

/// The step that tells of a node of the network.
pub open spec fn told_node(
    name: Seq<char>,
    pubkey: Seq<char>,
    nodes: Seq<Option<GraphNode>>,
) -> ControlStepView {
    if nodes.len() > 0 && nodes[0] is Some {
        if node_fits(nodes[0]->0) {
            control_done(name, ControlResultView::Node(node_info(nodes[0]->0)))
        } else {
            ControlStepView::Halt
        }
    } else {
        control_fails(name, "NOT_FOUND"@, "node not found: "@ + pubkey)
    }
}

/// How many routes a query asks for.
pub open spec fn route_count(method: ControlMethod, p: RouteParams) -> nat {
    if method == ControlMethod::QueryRoutes {
        match p.max_routes {
            Some(n) => (n as usize) as nat,
            None => DEFAULT_ROUTES as nat,
        }
    } else {
        1
    }
}

/// The step that tells of routes.
pub open spec fn told_routes(
    name: Seq<char>,
    method: ControlMethod,
    p: RouteParams,
    from: NodeId,
    channels: Seq<Option<GraphChannel>>,
) -> ControlStepView {
    match routes_to(
        from,
        pubkey_parse(route_destination(p)),
        route_amount(p),
        route_count(method, p),
        channels,
    ) {
        None => ControlStepView::Halt,
        Some(routes) => if routes.len() == 0 {
            control_fails(name, "NOT_FOUND"@, "no route found to destination"@)
        } else if method == ControlMethod::QueryRoutes {
            control_done(name, ControlResultView::Routes(routes))
        } else {
            control_done(
                name,
                ControlResultView::RouteFee {
                    fee: routes[0].total_fee,
                    time_lock_delay: routes[0].total_time_lock,
                },
            )
        },
    }
}

/// The next step of a control request when the node has answered a call. `Halt`
/// if the answer does not belong to the call, or the call not to the request.
pub open spec fn control_proceed(
    name: Seq<char>,
    method: ControlMethod,
    params: ControlParams,
    service: LdkService,
    call: CallView,
    reply: NodeReply,
) -> ControlStepView {
    match (method, params, call, reply) {
        (
            ControlMethod::OpenChannel,
            ControlParams::OpenChannel(Ok(p)),
            NodeCall::ListPeers,
            NodeReply::Peers { peers, .. },
        ) => open_to_peer(name, p, peers@),
        (
            ControlMethod::OpenChannel,
            ControlParams::OpenChannel(Ok(_)),
            NodeCall::OpenChannel { .. },
            NodeReply::Done(r),
        ) => after_operation(
            name,
            r,
            ControlResultView::Empty,
            LdkServiceError::ChannelFailed(failure_text(r)),
        ),
        (
            ControlMethod::ConnectPeer,
            ControlParams::ConnectPeer(Ok(_)),
            NodeCall::ConnectPeer { .. },
            NodeReply::Done(r),
        ) => after_operation(
            name,
            r,
            ControlResultView::Connected,
            LdkServiceError::PeerFailed(failure_text(r)),
        ),
        (
            ControlMethod::DisconnectPeer,
            ControlParams::DisconnectPeer(Ok(_)),
            NodeCall::DisconnectPeer { .. },
            NodeReply::Done(r),
        ) => after_operation(
            name,
            r,
            ControlResultView::Disconnected,
            LdkServiceError::PeerFailed(failure_text(r)),
        ),
        (
            ControlMethod::ListChannels,
            ControlParams::Empty,
            NodeCall::ListChannels,
            NodeReply::Channels(channels),
        ) => if capacities_fit(channels@) {
            control_done(name, ControlResultView::Channels(channel_infos(channels@)))
        } else {
            ControlStepView::Halt
        },
        (
            ControlMethod::ListPeers,
            ControlParams::Empty,
            NodeCall::ListPeers,
            NodeReply::Peers { peers, channels },
        ) => control_done(name, ControlResultView::Peers(peer_infos(peers@, channels@))),
        (
            ControlMethod::CloseChannel,
            ControlParams::CloseChannel(Ok(p)),
            NodeCall::ListChannels,
            NodeReply::Channels(channels),
        ) => ask_node(name, close_channel_call(channels@, p.id@, p.force)),
        (
            ControlMethod::CloseChannel,
            ControlParams::CloseChannel(Ok(_)),
            NodeCall::CloseChannel { .. },
            NodeReply::Done(r),
        ) => after_operation(
            name,
            r,
            ControlResultView::Empty,
            LdkServiceError::ChannelFailed(failure_text(r)),
        ),
        (
            ControlMethod::CloseChannel,
            ControlParams::CloseChannel(Ok(_)),
            NodeCall::ForceCloseChannel { .. },
            NodeReply::Done(r),
        ) => after_operation(
            name,
            r,
            ControlResultView::Empty,
            LdkServiceError::ChannelFailed(failure_text(r)),
        ),
        (
            ControlMethod::GetChannelFees,
            ControlParams::GetChannelFees(Ok(p)),
            NodeCall::ListChannels,
            NodeReply::Channels(channels),
        ) => control_done(
            name,
            ControlResultView::Fees(fee_infos(channels@, opt_text(p.id))),
        ),
        (
            ControlMethod::SetChannelFees,
            ControlParams::SetChannelFees(Ok(p)),
            NodeCall::ListChannels,
            NodeReply::Channels(channels),
        ) => set_fees_step(name, set_fees_call(channels@, p.id@, p.base_fee_msat, p.fee_rate)),
        (
            ControlMethod::SetChannelFees,
            ControlParams::SetChannelFees(Ok(_)),
            NodeCall::UpdateChannelFees { .. },
            NodeReply::Done(r),
        ) => after_operation(
            name,
            r,
            ControlResultView::Empty,
            LdkServiceError::ChannelFailed(failure_text(r)),
        ),
        (
            ControlMethod::ListNetworkNodes,
            ControlParams::ListNetworkNodes(Ok(p)),
            NodeCall::ListNodeIds,
            NodeReply::NodeIds(ids),
        ) => ControlStepView::Ask(
            NodeCall::ReadNodes { ids: page(ids@, p.offset as int, p.limit as int) },
        ),
        (
            ControlMethod::ListNetworkNodes,
            ControlParams::ListNetworkNodes(Ok(_)),
            NodeCall::ReadNodes { .. },
            NodeReply::Nodes(nodes),
        ) => if nodes_fit(nodes@) {
            control_done(name, ControlResultView::Nodes(node_infos(known_nodes(nodes@))))
        } else {
            ControlStepView::Halt
        },
        (
            ControlMethod::GetNetworkNode,
            ControlParams::GetNetworkNode(Ok(p)),
            NodeCall::ReadNodes { .. },
            NodeReply::Nodes(nodes),
        ) => told_node(name, p.pubkey@, nodes@),
        (
            ControlMethod::GetNetworkStats,
            ControlParams::Empty,
            NodeCall::ReadNetwork,
            NodeReply::Network { num_nodes, channels },
        ) => control_done(name, ControlResultView::Stats(network_figures(num_nodes, channels@))),
        (
            ControlMethod::GetNetworkChannel,
            ControlParams::GetNetworkChannel(Ok(p)),
            NodeCall::ReadChannel { scid },
            NodeReply::Channel(found),
        ) => match found {
            Some(c) => control_done(
                name,
                ControlResultView::Channel(network_channel_info(scid, c)),
            ),
            None => control_fails(
                name,
                "NOT_FOUND"@,
                "channel not found: "@ + p.short_channel_id@,
            ),
        },
        (
            ControlMethod::QueryRoutes,
            ControlParams::Route(p),
            NodeCall::ReadNetwork,
            NodeReply::Network { channels, .. },
        ) => told_routes(name, method, p, service.id(), channels@),
        (
            ControlMethod::EstimateRouteFee,
            ControlParams::Route(p),
            NodeCall::ReadNetwork,
            NodeReply::Network { channels, .. },
        ) => told_routes(name, method, p, service.id(), channels@),
        _ => ControlStepView::Halt,
    }
}

fn operation_done(name: &str, r: Result<(), String>, result: ControlResult) -> (out: ControlStep)
    ensures
        out@ == after_operation(
            name@,
            r,
            result@,
            LdkServiceError::ChannelFailed(failure_text(r)),
        ),
{
    match r {
        Ok(_) => tell(name, result),
        Err(m) => tell_node_failed(name, LdkServiceError::ChannelFailed(m)),
    }
}

fn peer_operation_done(name: &str, r: Result<(), String>, result: ControlResult) -> (out:
    ControlStep)
    ensures
        out@ == after_operation(name@, r, result@, LdkServiceError::PeerFailed(failure_text(r))),
{
    match r {
        Ok(_) => tell(name, result),
        Err(m) => tell_node_failed(name, LdkServiceError::PeerFailed(m)),
    }
}

fn tell_node(name: &str, pubkey: &str, nodes: &Vec<Option<GraphNode>>) -> (out: ControlStep)
    ensures
        out@ == told_node(name@, pubkey@, nodes@),
{
    if nodes.len() > 0 {
        if let Some(n) = &nodes[0] {
            return match map_node_info(n) {
                Some(info) => tell(name, ControlResult::Node(info)),
                None => ControlStep::Halt,
            };
        }
    }
    tell_error(name, "NOT_FOUND", join("node not found: ", pubkey).as_str())
}

fn tell_routes(
    name: &str,
    method: ControlMethod,
    p: &RouteParams,
    service: &LdkService,
    channels: &Vec<Option<GraphChannel>>,
) -> (out: ControlStep)
    ensures
        out@ == told_routes(name@, method, *p, service.id(), channels@),
{
    let destination: String = match &p.destination {
        Some(d) => copy_text(d.as_str()),
        None => {
            proof {
                reveal_strlit("");
                assert(""@ =~= Seq::empty());
            }
            copy_text("")
        },
    };
    let amount: u64 = match p.amount {
        Some(n) => n,
        None => 0,
    };
    let count: usize = if method == ControlMethod::QueryRoutes {
        match p.max_routes {
            Some(n) => n as usize,
            None => DEFAULT_ROUTES as usize,
        }
    } else {
        1
    };
    match service.find_routes(channels, destination.as_str(), amount, count) {
        None => ControlStep::Halt,
        Some(routes) => {
            assert(views(routes@).len() == routes@.len());
            if routes.len() == 0 {
                tell_error(name, "NOT_FOUND", "no route found to destination")
            } else if method == ControlMethod::QueryRoutes {
                tell(name, ControlResult::Routes(routes))
            } else {
                assert(views(routes@)[0] == routes@[0]@);
                tell(
                    name,
                    ControlResult::RouteFee {
                        fee: routes[0].total_fee,
                        time_lock_delay: routes[0].total_time_lock,
                    },
                )
            }
        },
    }
}

fn proceed_control(
    name: &str,
    method: ControlMethod,
    params: &ControlParams,
    service: &LdkService,
    call: &NodeCall,
    reply: NodeReply,
) -> (out: ControlStep)
    ensures
        out@ == control_proceed(name@, method, *params, *service, call@, reply),
{
    match (method, params, call, reply) {
        (
            ControlMethod::OpenChannel,
            ControlParams::OpenChannel(Ok(p)),
            NodeCall::ListPeers,
            NodeReply::Peers { peers, .. },
        ) => match find_connected(&peers, p.pubkey.as_str()) {
            Some(peer) => ask_or_tell(
                name,
                service.open_channel(
                    p.pubkey.as_str(),
                    peer.address.as_str(),
                    p.amount,
                    p.push_amount,
                ),
            ),
            None => tell_other(name, "peer not connected and no host provided"),
        },
        (
            ControlMethod::OpenChannel,
            ControlParams::OpenChannel(Ok(_)),
            NodeCall::OpenChannel { .. },
            NodeReply::Done(r),
        ) => operation_done(name, r, ControlResult::Empty),
        (
            ControlMethod::ConnectPeer,
            ControlParams::ConnectPeer(Ok(_)),
            NodeCall::ConnectPeer { .. },
            NodeReply::Done(r),
        ) => peer_operation_done(name, r, ControlResult::Connected),
        (
            ControlMethod::DisconnectPeer,
            ControlParams::DisconnectPeer(Ok(_)),
            NodeCall::DisconnectPeer { .. },
            NodeReply::Done(r),
        ) => peer_operation_done(name, r, ControlResult::Disconnected),
        (
            ControlMethod::ListChannels,
            ControlParams::Empty,
            NodeCall::ListChannels,
            NodeReply::Channels(channels),
        ) => if check_capacities(&channels) {
            tell(name, ControlResult::Channels(service.list_channels(&channels)))
        } else {
            ControlStep::Halt
        },
        (
            ControlMethod::ListPeers,
            ControlParams::Empty,
            NodeCall::ListPeers,
            NodeReply::Peers { peers, channels },
        ) => tell(name, ControlResult::Peers(service.list_peers(&peers, &channels))),
        (
            ControlMethod::CloseChannel,
            ControlParams::CloseChannel(Ok(p)),
            NodeCall::ListChannels,
            NodeReply::Channels(channels),
        ) => ask_or_tell(name, service.close_channel(&channels, p.id.as_str(), p.force)),
        (
            ControlMethod::CloseChannel,
            ControlParams::CloseChannel(Ok(_)),
            NodeCall::CloseChannel { .. },
            NodeReply::Done(r),
        ) => operation_done(name, r, ControlResult::Empty),
        (
            ControlMethod::CloseChannel,
            ControlParams::CloseChannel(Ok(_)),
            NodeCall::ForceCloseChannel { .. },
            NodeReply::Done(r),
        ) => operation_done(name, r, ControlResult::Empty),
        (
            ControlMethod::GetChannelFees,
            ControlParams::GetChannelFees(Ok(p)),
            NodeCall::ListChannels,
            NodeReply::Channels(channels),
        ) => tell(
            name,
            ControlResult::Fees(service.get_channel_fees(&channels, as_slice(&p.id))),
        ),
        (
            ControlMethod::SetChannelFees,
            ControlParams::SetChannelFees(Ok(p)),
            NodeCall::ListChannels,
            NodeReply::Channels(channels),
        ) => start_set_fees(
            name,
            service.set_channel_fees(&channels, p.id.as_str(), p.base_fee_msat, p.fee_rate),
        ),
        (
            ControlMethod::SetChannelFees,
            ControlParams::SetChannelFees(Ok(_)),
            NodeCall::UpdateChannelFees { .. },
            NodeReply::Done(r),
        ) => operation_done(name, r, ControlResult::Empty),
        (
            ControlMethod::ListNetworkNodes,
            ControlParams::ListNetworkNodes(Ok(p)),
            NodeCall::ListNodeIds,
            NodeReply::NodeIds(ids),
        ) => ControlStep::Ask(service.page_network_nodes(&ids, p.limit, p.offset)),
        (
            ControlMethod::ListNetworkNodes,
            ControlParams::ListNetworkNodes(Ok(_)),
            NodeCall::ReadNodes { .. },
            NodeReply::Nodes(nodes),
        ) => match service.list_network_nodes(&nodes) {
            Some(list) => tell(name, ControlResult::Nodes(list)),
            None => ControlStep::Halt,
        },
        (
            ControlMethod::GetNetworkNode,
            ControlParams::GetNetworkNode(Ok(p)),
            NodeCall::ReadNodes { .. },
            NodeReply::Nodes(nodes),
        ) => tell_node(name, p.pubkey.as_str(), &nodes),
        (
            ControlMethod::GetNetworkStats,
            ControlParams::Empty,
            NodeCall::ReadNetwork,
            NodeReply::Network { num_nodes, channels },
        ) => tell(name, ControlResult::Stats(service.get_network_stats(num_nodes, &channels))),
        (
            ControlMethod::GetNetworkChannel,
            ControlParams::GetNetworkChannel(Ok(p)),
            NodeCall::ReadChannel { scid },
            NodeReply::Channel(found),
        ) => match found {
            Some(c) => tell(
                name,
                ControlResult::Channel(service.describe_network_channel(*scid, &c)),
            ),
            None => tell_error(
                name,
                "NOT_FOUND",
                join("channel not found: ", p.short_channel_id.as_str()).as_str(),
            ),
        },
        (
            ControlMethod::QueryRoutes,
            ControlParams::Route(p),
            NodeCall::ReadNetwork,
            NodeReply::Network { channels, .. },
        ) => tell_routes(name, method, p, service, &channels),
        (
            ControlMethod::EstimateRouteFee,
            ControlParams::Route(p),
            NodeCall::ReadNetwork,
            NodeReply::Network { channels, .. },
        ) => tell_routes(name, method, p, service, &channels),
        _ => ControlStep::Halt,
    }
}

/// Goes on with a control request when the node has answered a call.
pub fn resume_control_request(
    request: &ControlRequest,
    service: &LdkService,
    call: &NodeCall,
    reply: NodeReply,
) -> (out: ControlStep)
    ensures
        out@ == match control_named(request.method@) {
            Some(method) => control_proceed(
                request.method@,
                method,
                request.params,
                *service,
                call@,
                reply,
            ),
            None => ControlStepView::Halt,
        },
{
    match control_method(request.method.as_str()) {
        Some(method) => proceed_control(
            request.method.as_str(),
            method,
            &request.params,
            service,
            call,
            reply,
        ),
        None => ControlStep::Halt,
    }
}

/// An estimate tells the fee and the time lock of the first route that a query
/// for the same destination and amount tells.
pub proof fn estimate_is_of_the_first_route(
    query: RouteParams,
    estimate: RouteParams,
    from: NodeId,
    channels: Seq<Option<GraphChannel>>,
)
    requires
        query.max_routes is None,
        route_destination(query) == route_destination(estimate),
        route_amount(query) == route_amount(estimate),
        told_routes("query_routes"@, ControlMethod::QueryRoutes, query, from, channels) matches
            ControlStepView::Done(r) && r.error is None,
    ensures
        told_routes(
            "estimate_route_fee"@,
            ControlMethod::EstimateRouteFee,
            estimate,
            from,
            channels,
        ) matches ControlStepView::Done(e) && e.result matches Some(
            ControlResultView::RouteFee { fee, time_lock_delay },
        ) && told_routes(
            "query_routes"@,
            ControlMethod::QueryRoutes,
            query,
            from,
            channels,
        ) matches ControlStepView::Done(r) && r.result matches Some(
            ControlResultView::Routes(routes),
        ) && routes[0].total_fee == fee && routes[0].total_time_lock == time_lock_delay,
{
}

/// The calls of the node that a control request can come to.
pub open spec fn control_calls(method: ControlMethod, params: ControlParams, call: CallView) -> bool {
    match (method, params) {
        (ControlMethod::OpenChannel, ControlParams::OpenChannel(Ok(_))) => call is ListPeers
            || call is OpenChannel,
        (ControlMethod::ConnectPeer, ControlParams::ConnectPeer(Ok(_))) => call is ConnectPeer,
        (ControlMethod::DisconnectPeer, ControlParams::DisconnectPeer(Ok(_))) =>
            call is DisconnectPeer,
        (ControlMethod::ListChannels, ControlParams::Empty) => call is ListChannels,
        (ControlMethod::ListPeers, ControlParams::Empty) => call is ListPeers,
        (ControlMethod::CloseChannel, ControlParams::CloseChannel(Ok(_))) => call is ListChannels
            || call is CloseChannel || call is ForceCloseChannel,
        (ControlMethod::GetChannelFees, ControlParams::GetChannelFees(Ok(_))) =>
            call is ListChannels,
        (ControlMethod::SetChannelFees, ControlParams::SetChannelFees(Ok(_))) => call is ListChannels
            || call is UpdateChannelFees,
        (ControlMethod::ListNetworkNodes, ControlParams::ListNetworkNodes(Ok(_))) =>
            call is ListNodeIds || call is ReadNodes,
        (ControlMethod::GetNetworkNode, ControlParams::GetNetworkNode(Ok(_))) => call is ReadNodes,
        (ControlMethod::GetNetworkStats, ControlParams::Empty) => call is ReadNetwork,
        (ControlMethod::GetNetworkChannel, ControlParams::GetNetworkChannel(Ok(_))) =>
            call is ReadChannel,
        (ControlMethod::QueryRoutes, ControlParams::Route(_)) => call is ReadNetwork,
        (ControlMethod::EstimateRouteFee, ControlParams::Route(_)) => call is ReadNetwork,
        _ => false,
    }
}

/// Every figure that an answer tells fits into 64 bits.
pub open spec fn figures_fit(
    method: ControlMethod,
    params: ControlParams,
    service: LdkService,
    reply: NodeReply,
) -> bool {
    match (params, reply) {
        (_, NodeReply::Channels(channels)) => method == ControlMethod::ListChannels
            ==> capacities_fit(channels@),
        (_, NodeReply::Nodes(nodes)) => if method == ControlMethod::ListNetworkNodes {
            nodes_fit(nodes@)
        } else {
            nodes@.len() > 0 && nodes@[0] is Some ==> node_fits(nodes@[0]->0)
        },
        (ControlParams::Route(p), NodeReply::Network { channels, .. }) => routes_to(
            service.id(),
            pubkey_parse(route_destination(p)),
            route_amount(p),
            route_count(method, p),
            channels@,
        ) is Some,
        _ => true,
    }
}

/// A control request begins with one of its calls, if with any.
pub proof fn control_requests_begin_with_their_calls(
    name: Seq<char>,
    method: ControlMethod,
    params: ControlParams,
    attached: bool,
    forwards: Seq<ForwardingView>,
)
    ensures
        control_begin(name, method, params, attached, forwards) matches ControlStepView::Ask(call)
            ==> control_calls(method, params, call),
{
}

/// A control request that asked the node for something does not get stuck:
/// whatever the node replies, as long as its figures fit, the request is
/// answered or asks for one of its calls again.
pub proof fn control_requests_go_on(
    name: Seq<char>,
    method: ControlMethod,
    params: ControlParams,
    service: LdkService,
    call: CallView,
    reply: NodeReply,
)
    requires
        control_calls(method, params, call),
        answers(call, reply),
        figures_fit(method, params, service, reply),
    ensures
        match control_proceed(name, method, params, service, call, reply) {
            ControlStepView::Halt => false,
            ControlStepView::Ask(next) => control_calls(method, params, next),
            _ => true,
        },
{
}

} // verus!
