//! The first step of a control request.

use vstd::prelude::*;

use crate::access::UsageProfile;
use crate::control::messages::{
    authorize_control_method, control_failed, control_method, ControlMethod, ControlParams,
    ControlRequest, ControlResponse, ControlResult, RouteParams,
};
#[allow(unused_imports)]
use crate::control::messages::{
    control_denial, control_failure, control_named, control_success, ControlResponseView,
    ControlResultView,
};
#[allow(unused_imports)]
use crate::lightning::ldk_service::service_error_text;
use crate::lightning::ldk_service::{
    LdkChannelFees, LdkChannelInfo, LdkPeerInfo, LdkServiceError, NetworkNodeInfo, NetworkStats,
};
use crate::lightning::node::NodeCall;
#[allow(unused_imports)]
use crate::lightning::parse::pubkey_parse;
#[allow(unused_imports)]
use crate::lightning::scid::parsed_scid;
use crate::lightning::service::LdkService;
#[allow(unused_imports)]
use crate::lightning::service::{
    connect_call, disconnect_call, open_channel_call, CallView, ErrorView,
};
#[allow(unused_imports)]
use crate::state::forwarding_store::{settled_within, ForwardingView};
use crate::state::forwarding_store::get_history;
#[allow(unused_imports)]
use crate::state::page::page;
use crate::state::stores::Stores;
#[allow(unused_imports)]
use crate::text::texts;
use crate::text::{copy_text, join};
#[allow(unused_imports)]
use crate::views::{result_view, views};
use crate::wallet::request::{change_subscription, find_unknown};
#[allow(unused_imports)]
use crate::wallet::request::{first_unknown, subscriptions_with, unknown_type};

verus! {

/// A step in carrying out a control request.
#[derive(Debug)]
pub enum ControlStep {
    /// The request is answered.
    Done(ControlResponse),
    /// The node has to answer first.
    Ask(NodeCall),
    /// A figure does not fit into 64 bits, or what came back is no answer to
    /// what was asked: there is no answer.
    Halt,
}

/// A [`ControlStep`] over sequences.
pub enum ControlStepView {
    Done(ControlResponseView),
    Ask(CallView),
    Halt,
}

impl View for ControlStep {
    type V = ControlStepView;

    open spec fn view(&self) -> ControlStepView {
        match *self {
            ControlStep::Done(r) => ControlStepView::Done(r@),
            ControlStep::Ask(call) => ControlStepView::Ask(call@),
            ControlStep::Halt => ControlStepView::Halt,
        }
    }
}

/// The step that gives a result.
pub open spec fn control_done(method: Seq<char>, r: ControlResultView) -> ControlStepView {
    ControlStepView::Done(control_success(method, r))
}

/// The step that gives an error.
pub open spec fn control_fails(method: Seq<char>, code: Seq<char>, message: Seq<char>) ->
    ControlStepView {
    ControlStepView::Done(control_failure(method, code, message))
}

/// The step that gives an error without a code of its own.
pub open spec fn control_other(method: Seq<char>, message: Seq<char>) -> ControlStepView {
    control_fails(method, "OTHER"@, message)
}

/// The step for parameters that could not be read.
pub open spec fn bad_params(method: Seq<char>, reason: Seq<char>) -> ControlStepView {
    control_other(method, "invalid "@ + method + " params: "@ + reason)
}

/// The step where no node is attached.
pub open spec fn no_node(method: Seq<char>) -> ControlStepView {
    control_other(method, "ldk service unavailable"@)
}

/// The step for an operation of the node that failed.
pub open spec fn node_failed(method: Seq<char>, e: ErrorView) -> ControlStepView {
    control_other(method, method + " failed: "@ + service_error_text(e))
}

/// The step that makes a request to the node, or tells why it cannot be made.
pub open spec fn ask_node(method: Seq<char>, call: Result<CallView, ErrorView>) -> ControlStepView {
    match call {
        Ok(call) => ControlStepView::Ask(call),
        Err(e) => node_failed(method, e),
    }
}

/// The step for a method that is not carried out.
pub open spec fn not_yet(method: Seq<char>) -> ControlStepView {
    control_fails(method, "NOT_IMPLEMENTED"@, "control method not implemented yet"@)
}

pub(crate) fn tell(method: &str, r: ControlResult) -> (out: ControlStep)
    ensures
        out@ == control_done(method@, r@),
{
    ControlStep::Done(
        ControlResponse { result_type: copy_text(method), result: Some(r), error: None },
    )
}

pub(crate) fn tell_error(method: &str, code: &str, message: &str) -> (out: ControlStep)
    ensures
        out@ == control_fails(method@, code@, message@),
{
    ControlStep::Done(control_failed(method, code, message))
}

pub(crate) fn tell_other(method: &str, message: &str) -> (out: ControlStep)
    ensures
        out@ == control_other(method@, message@),
{
    tell_error(method, "OTHER", message)
}

fn tell_bad_params(method: &str, reason: &str) -> (out: ControlStep)
    ensures
        out@ == bad_params(method@, reason@),
{
    let start: String = join("invalid ", method);
    let head: String = join(start.as_str(), " params: ");
    tell_other(method, join(head.as_str(), reason).as_str())
}

pub(crate) fn tell_node_failed(method: &str, e: LdkServiceError) -> (out: ControlStep)
    ensures
        out@ == node_failed(method@, e@),
{
    let head: String = join(method, " failed: ");
    tell_other(method, join(head.as_str(), e.to_string().as_str()).as_str())
}

pub(crate) fn ask_or_tell(method: &str, call: Result<NodeCall, LdkServiceError>) -> (out:
    ControlStep)
    ensures
        out@ == ask_node(method@, result_view(call)),
{
    match call {
        Ok(call) => ControlStep::Ask(call),
        Err(e) => tell_node_failed(method, e),
    }
}

/// The destination of a query for routes.
pub open spec fn route_destination(p: RouteParams) -> Seq<char> {
    match p.destination {
        Some(d) => d@,
        None => Seq::empty(),
    }
}

/// The amount of a query for routes.
pub open spec fn route_amount(p: RouteParams) -> u64 {
    match p.amount {
        Some(n) => n,
        None => 0,
    }
}

/// The first step of a query for routes. Without a node, a query that does not
/// name a destination and an amount is not carried out.
pub open spec fn route_step(method: Seq<char>, p: RouteParams, attached: bool) -> ControlStepView {
    if route_destination(p).len() == 0 || route_amount(p) == 0 {
        if attached {
            control_other(method, "destination and amount required"@)
        } else {
            not_yet(method)
        }
    } else if attached {
        ControlStepView::Ask(NodeCall::ReadNetwork)
    } else {
        control_fails(method, "NOT_FOUND"@, "no route found to destination"@)
    }
}

fn start_route(method: &str, p: &RouteParams, attached: bool) -> (out: ControlStep)
    ensures
        out@ == route_step(method@, *p, attached),
{
    let destination_missing: bool = match &p.destination {
        Some(d) => d.as_str().unicode_len() == 0,
        None => true,
    };
    let amount_missing: bool = match p.amount {
        Some(n) => n == 0,
        None => true,
    };
    if destination_missing || amount_missing {
        if attached {
            tell_other(method, "destination and amount required")
        } else {
            tell_error(method, "NOT_IMPLEMENTED", "control method not implemented yet")
        }
    } else if attached {
        ControlStep::Ask(NodeCall::ReadNetwork)
    } else {
        tell_error(method, "NOT_FOUND", "no route found to destination")
    }
}

/// The kinds of events of the node that a client is told of.
pub open spec fn node_notifications() -> Seq<Seq<char>> {
    seq!["channel_opened"@, "channel_closed"@]
}

/// The figures that are told where no node is attached.
pub open spec fn no_figures() -> NetworkStats {
    NetworkStats {
        num_nodes: 0,
        num_channels: 0,
        total_capacity: 0,
        avg_channel_size: 0,
        max_channel_size: 0,
    }
}

/// The first step of a request whose client may make it and whose method is
/// supported. `Halt` if the parameters belong to another method.
pub open spec fn control_begin(
    name: Seq<char>,
    method: ControlMethod,
    params: ControlParams,
    attached: bool,
    forwards: Seq<ForwardingView>,
) -> ControlStepView {
    match (method, params) {
        (ControlMethod::OpenChannel, ControlParams::OpenChannel(Err(m))) => bad_params(name, m@),
        (ControlMethod::OpenChannel, ControlParams::OpenChannel(Ok(p))) => if p.amount == 0 {
            control_other(name, "amount must be greater than 0"@)
        } else if !attached {
            no_node(name)
        } else {
            match p.host {
                Some(host) => ask_node(
                    name,
                    open_channel_call(p.pubkey@, host@, p.amount, p.push_amount),
                ),
                None => ControlStepView::Ask(NodeCall::ListPeers),
            }
        },
        (ControlMethod::ConnectPeer, ControlParams::ConnectPeer(Err(m))) => bad_params(name, m@),
        (ControlMethod::ConnectPeer, ControlParams::ConnectPeer(Ok(p))) => if !attached {
            no_node(name)
        } else {
            ask_node(name, connect_call(p.pubkey@, p.host@))
        },
        (ControlMethod::DisconnectPeer, ControlParams::DisconnectPeer(Err(m))) => bad_params(
            name,
            m@,
        ),
        (ControlMethod::DisconnectPeer, ControlParams::DisconnectPeer(Ok(p))) => if !attached {
            no_node(name)
        } else {
            ask_node(name, disconnect_call(p.pubkey@))
        },
        (ControlMethod::ListChannels, ControlParams::Empty) => if attached {
            ControlStepView::Ask(NodeCall::ListChannels)
        } else {
            control_done(name, ControlResultView::Channels(Seq::empty()))
        },
        (ControlMethod::ListPeers, ControlParams::Empty) => if attached {
            ControlStepView::Ask(NodeCall::ListPeers)
        } else {
            control_done(name, ControlResultView::Peers(Seq::empty()))
        },
        (ControlMethod::CloseChannel, ControlParams::CloseChannel(Err(m))) => bad_params(name, m@),
        (ControlMethod::CloseChannel, ControlParams::CloseChannel(Ok(_))) => if attached {
            ControlStepView::Ask(NodeCall::ListChannels)
        } else {
            no_node(name)
        },
        (ControlMethod::GetChannelFees, ControlParams::GetChannelFees(Err(m))) => bad_params(
            name,
            m@,
        ),
        (ControlMethod::GetChannelFees, ControlParams::GetChannelFees(Ok(_))) => if attached {
            ControlStepView::Ask(NodeCall::ListChannels)
        } else {
            control_done(name, ControlResultView::Fees(Seq::empty()))
        },
        (ControlMethod::SetChannelFees, ControlParams::SetChannelFees(Err(m))) => bad_params(
            name,
            m@,
        ),
        (ControlMethod::SetChannelFees, ControlParams::SetChannelFees(Ok(_))) => if attached {
            ControlStepView::Ask(NodeCall::ListChannels)
        } else {
            no_node(name)
        },
        (ControlMethod::ListNetworkNodes, ControlParams::ListNetworkNodes(Err(m))) => bad_params(
            name,
            m@,
        ),
        (ControlMethod::ListNetworkNodes, ControlParams::ListNetworkNodes(Ok(_))) => if attached {
            ControlStepView::Ask(NodeCall::ListNodeIds)
        } else {
            control_done(name, ControlResultView::Nodes(Seq::empty()))
        },
        (ControlMethod::GetNetworkNode, ControlParams::GetNetworkNode(Err(m))) => bad_params(
            name,
            m@,
        ),
        (ControlMethod::GetNetworkNode, ControlParams::GetNetworkNode(Ok(p))) => if !attached {
            no_node(name)
        } else {
            match pubkey_parse(p.pubkey@) {
                Ok(id) => ControlStepView::Ask(NodeCall::ReadNodes { ids: seq![id] }),
                Err(m) => node_failed(name, LdkServiceError::InvalidPubkey(m)),
            }
        },
        (ControlMethod::GetNetworkStats, ControlParams::Empty) => if attached {
            ControlStepView::Ask(NodeCall::ReadNetwork)
        } else {
            control_done(name, ControlResultView::Stats(no_figures()))
        },
        (ControlMethod::GetNetworkChannel, ControlParams::GetNetworkChannel(Err(m))) => bad_params(
            name,
            m@,
        ),
        (ControlMethod::GetNetworkChannel, ControlParams::GetNetworkChannel(Ok(p))) => if !attached {
            no_node(name)
        } else {
            match parsed_scid(p.short_channel_id@) {
                Some(scid) => ControlStepView::Ask(NodeCall::ReadChannel { scid }),
                None => node_failed(
                    name,
                    LdkServiceError::ChannelFailed(
                        "invalid scid format: "@ + p.short_channel_id@,
                    ),
                ),
            }
        },
        (ControlMethod::GetForwardingHistory, ControlParams::GetForwardingHistory(Err(m))) =>
            bad_params(name, m@),
        (ControlMethod::GetForwardingHistory, ControlParams::GetForwardingHistory(Ok(p))) =>
            control_done(
            name,
            ControlResultView::Forwards(
                page(
                    forwards.filter(settled_within(p.from, p.until)),
                    p.offset as int,
                    p.limit as int,
                ),
            ),
        ),
        (ControlMethod::SubscribeNotifications, ControlParams::SubscribeNotifications(Err(m))) =>
            bad_params(name, m@),
        (ControlMethod::SubscribeNotifications, ControlParams::SubscribeNotifications(Ok(p))) =>
            match first_unknown(texts(p.types@), node_notifications()) {
            Some(kind) => control_other(name, unknown_type(kind)),
            None => control_done(name, ControlResultView::Empty),
        },
        (ControlMethod::QueryRoutes, ControlParams::Route(p)) => route_step(name, p, attached),
        (ControlMethod::EstimateRouteFee, ControlParams::Route(p)) => route_step(name, p, attached),
        (ControlMethod::GetPendingHtlcs, ControlParams::Empty) => not_yet(name),
        _ => ControlStepView::Halt,
    }
}

/// The subscriptions after a control request.
pub open spec fn control_subscriptions(
    m: Map<Seq<char>, Set<Seq<char>>>,
    client: Seq<char>,
    method: ControlMethod,
    params: ControlParams,
) -> Map<Seq<char>, Set<Seq<char>>> {
    match (method, params) {
        (ControlMethod::SubscribeNotifications, ControlParams::SubscribeNotifications(Ok(p))) =>
            if first_unknown(texts(p.types@), node_notifications()) is None {
            subscriptions_with(m, client, texts(p.types@))
        } else {
            m
        },
        _ => m,
    }
}

fn begin_control(
    name: &str,
    method: ControlMethod,
    params: &ControlParams,
    client: &str,
    service: Option<&LdkService>,
    stores: &mut Stores,
) -> (out: ControlStep)
    requires
        old(stores).wf(),
    ensures
        out@ == control_begin(name@, method, *params, service is Some, old(stores).forwards@),
        final(stores).wf(),
        final(stores).same_but_subscriptions(old(stores)),
        final(stores).subscriptions@ == control_subscriptions(
            old(stores).subscriptions@,
            client@,
            method,
            *params,
        ),
{
    match (method, params) {
        (ControlMethod::OpenChannel, ControlParams::OpenChannel(Err(m))) => tell_bad_params(
            name,
            m.as_str(),
        ),
        (ControlMethod::OpenChannel, ControlParams::OpenChannel(Ok(p))) => {
            if p.amount == 0 {
                return tell_other(name, "amount must be greater than 0");
            }
            match service {
                Some(service) => match &p.host {
                    Some(host) => ask_or_tell(
                        name,
                        service.open_channel(
                            p.pubkey.as_str(),
                            host.as_str(),
                            p.amount,
                            p.push_amount,
                        ),
                    ),
                    None => ControlStep::Ask(NodeCall::ListPeers),
                },
                None => tell_other(name, "ldk service unavailable"),
            }
        },
        (ControlMethod::ConnectPeer, ControlParams::ConnectPeer(Err(m))) => tell_bad_params(
            name,
            m.as_str(),
        ),
        (ControlMethod::ConnectPeer, ControlParams::ConnectPeer(Ok(p))) => match service {
            Some(service) => ask_or_tell(
                name,
                service.connect_peer(p.pubkey.as_str(), p.host.as_str()),
            ),
            None => tell_other(name, "ldk service unavailable"),
        },
        (ControlMethod::DisconnectPeer, ControlParams::DisconnectPeer(Err(m))) => tell_bad_params(
            name,
            m.as_str(),
        ),
        (ControlMethod::DisconnectPeer, ControlParams::DisconnectPeer(Ok(p))) => match service {
            Some(service) => ask_or_tell(name, service.disconnect_peer(p.pubkey.as_str())),
            None => tell_other(name, "ldk service unavailable"),
        },
        (ControlMethod::ListChannels, ControlParams::Empty) => match service {
            Some(_) => ControlStep::Ask(NodeCall::ListChannels),
            None => {
                let none: Vec<LdkChannelInfo> = Vec::new();
                assert(views(none@) =~= Seq::empty());
                tell(name, ControlResult::Channels(none))
            },
        },
        (ControlMethod::ListPeers, ControlParams::Empty) => match service {
            Some(_) => ControlStep::Ask(NodeCall::ListPeers),
            None => {
                let none: Vec<LdkPeerInfo> = Vec::new();
                assert(views(none@) =~= Seq::empty());
                tell(name, ControlResult::Peers(none))
            },
        },
        (ControlMethod::CloseChannel, ControlParams::CloseChannel(Err(m))) => tell_bad_params(
            name,
            m.as_str(),
        ),
        (ControlMethod::CloseChannel, ControlParams::CloseChannel(Ok(_))) => match service {
            Some(_) => ControlStep::Ask(NodeCall::ListChannels),
            None => tell_other(name, "ldk service unavailable"),
        },
        (ControlMethod::GetChannelFees, ControlParams::GetChannelFees(Err(m))) => tell_bad_params(
            name,
            m.as_str(),
        ),
        (ControlMethod::GetChannelFees, ControlParams::GetChannelFees(Ok(_))) => match service {
            Some(_) => ControlStep::Ask(NodeCall::ListChannels),
            None => {
                let none: Vec<LdkChannelFees> = Vec::new();
                assert(views(none@) =~= Seq::empty());
                tell(name, ControlResult::Fees(none))
            },
        },
        (ControlMethod::SetChannelFees, ControlParams::SetChannelFees(Err(m))) => tell_bad_params(
            name,
            m.as_str(),
        ),
        (ControlMethod::SetChannelFees, ControlParams::SetChannelFees(Ok(_))) => match service {
            Some(_) => ControlStep::Ask(NodeCall::ListChannels),
            None => tell_other(name, "ldk service unavailable"),
        },
        (ControlMethod::ListNetworkNodes, ControlParams::ListNetworkNodes(Err(m))) =>
            tell_bad_params(name, m.as_str()),
        (ControlMethod::ListNetworkNodes, ControlParams::ListNetworkNodes(Ok(_))) => match service {
            Some(_) => ControlStep::Ask(NodeCall::ListNodeIds),
            None => {
                let none: Vec<NetworkNodeInfo> = Vec::new();
                assert(views(none@) =~= Seq::empty());
                tell(name, ControlResult::Nodes(none))
            },
        },
        (ControlMethod::GetNetworkNode, ControlParams::GetNetworkNode(Err(m))) => tell_bad_params(
            name,
            m.as_str(),
        ),
        (ControlMethod::GetNetworkNode, ControlParams::GetNetworkNode(Ok(p))) => match service {
            Some(service) => ask_or_tell(name, service.get_network_node(p.pubkey.as_str())),
            None => tell_other(name, "ldk service unavailable"),
        },
        (ControlMethod::GetNetworkStats, ControlParams::Empty) => match service {
            Some(_) => ControlStep::Ask(NodeCall::ReadNetwork),
            None => tell(
                name,
                ControlResult::Stats(
                    NetworkStats {
                        num_nodes: 0,
                        num_channels: 0,
                        total_capacity: 0,
                        avg_channel_size: 0,
                        max_channel_size: 0,
                    },
                ),
            ),
        },
        (ControlMethod::GetNetworkChannel, ControlParams::GetNetworkChannel(Err(m))) =>
            tell_bad_params(name, m.as_str()),
        (ControlMethod::GetNetworkChannel, ControlParams::GetNetworkChannel(Ok(p))) =>
            match service {
            Some(service) => ask_or_tell(
                name,
                service.get_network_channel(p.short_channel_id.as_str()),
            ),
            None => tell_other(name, "ldk service unavailable"),
        },
        (ControlMethod::GetForwardingHistory, ControlParams::GetForwardingHistory(Err(m))) =>
            tell_bad_params(name, m.as_str()),
        (ControlMethod::GetForwardingHistory, ControlParams::GetForwardingHistory(Ok(p))) => tell(
            name,
            ControlResult::Forwards(
                get_history(&stores.forwards, p.from, p.until, p.limit, p.offset),
            ),
        ),
        (ControlMethod::SubscribeNotifications, ControlParams::SubscribeNotifications(Err(m))) =>
            tell_bad_params(name, m.as_str()),
        (ControlMethod::SubscribeNotifications, ControlParams::SubscribeNotifications(Ok(p))) => {
            let known: [&str; 2] = ["channel_opened", "channel_closed"];
            assert(known@.map_values(|s: &str| s@) =~= node_notifications());
            match find_unknown(&p.types, known.as_slice()) {
                Some(kind) => tell_other(
                    name,
                    join("unknown notification type: ", kind).as_str(),
                ),
                None => {
                    change_subscription(stores, client, &p.types);
                    tell(name, ControlResult::Empty)
                },
            }
        },
        (ControlMethod::QueryRoutes, ControlParams::Route(p)) => start_route(
            name,
            p,
            service.is_some(),
        ),
        (ControlMethod::EstimateRouteFee, ControlParams::Route(p)) => start_route(
            name,
            p,
            service.is_some(),
        ),
        (ControlMethod::GetPendingHtlcs, ControlParams::Empty) => tell_error(
            name,
            "NOT_IMPLEMENTED",
            "control method not implemented yet",
        ),
        _ => ControlStep::Halt,
    }
}

/// The first step of a control request. A client that may not call the method
/// is refused before anything else; then a method that is not supported is.
pub open spec fn control_start<R>(
    request: ControlRequest,
    profile: Option<UsageProfile<R>>,
    attached: bool,
    forwards: Seq<ForwardingView>,
) -> ControlStepView {
    match control_denial(profile, request.method@) {
        Some(e) => control_fails(request.method@, e.code, e.message),
        None => match control_named(request.method@) {
            None => control_fails(
                request.method@,
                "NOT_IMPLEMENTED"@,
                "unknown control method: "@ + request.method@,
            ),
            Some(method) => control_begin(
                request.method@,
                method,
                request.params,
                attached,
                forwards,
            ),
        },
    }
}

/// The subscriptions after the first step of a control request.
pub open spec fn control_start_subscriptions<R>(
    m: Map<Seq<char>, Set<Seq<char>>>,
    client: Seq<char>,
    request: ControlRequest,
    profile: Option<UsageProfile<R>>,
) -> Map<Seq<char>, Set<Seq<char>>> {
    if control_denial(profile, request.method@) is Some {
        m
    } else {
        match control_named(request.method@) {
            None => m,
            Some(method) => control_subscriptions(m, client, method, request.params),
        }
    }
}

/// Starts a control request.
pub fn process_control_request<R>(
    request: &ControlRequest,
    caller_pubkey: &str,
    profile: Option<&UsageProfile<R>>,
    service: Option<&LdkService>,
    stores: &mut Stores,
) -> (out: ControlStep)
    requires
        old(stores).wf(),
    ensures
        out@ == control_start(
            *request,
            match profile {
                Some(p) => Some(*p),
                None => None,
            },
            service is Some,
            old(stores).forwards@,
        ),
        final(stores).wf(),
        final(stores).same_but_subscriptions(old(stores)),
        final(stores).subscriptions@ == control_start_subscriptions(
            old(stores).subscriptions@,
            caller_pubkey@,
            *request,
            match profile {
                Some(p) => Some(*p),
                None => None,
            },
        ),
{
    let name: &str = request.method.as_str();
    match authorize_control_method(profile, name) {
        Ok(_) => {},
        Err(e) => {
            return ControlStep::Done(
                ControlResponse { result_type: copy_text(name), result: None, error: Some(e) },
            );
        },
    }
    match control_method(name) {
        None => tell_error(
            name,
            "NOT_IMPLEMENTED",
            join("unknown control method: ", name).as_str(),
        ),
        Some(method) => begin_control(
            name,
            method,
            &request.params,
            caller_pubkey,
            service,
            stores,
        ),
    }
}

/// The answer to a control request that could not be read.
pub fn malformed_control_request(reason: &str) -> (out: ControlResponse)
    ensures
        out@ == control_failure(
            "unknown"@,
            "OTHER"@,
            "invalid control request payload: "@ + reason@,
        ),
{
    control_failed(
        "unknown",
        "OTHER",
        join("invalid control request payload: ", reason).as_str(),
    )
}

/// A client that may not call a method learns nothing and changes nothing: the
/// answer does not depend on the node or on what the service remembers.
pub proof fn refused_control_requests_are_inert<R>(
    request: ControlRequest,
    profile: Option<UsageProfile<R>>,
    client: Seq<char>,
    m: Map<Seq<char>, Set<Seq<char>>>,
    attached: bool,
    forwards: Seq<ForwardingView>,
)
    requires
        control_denial(profile, request.method@) is Some,
    ensures
        control_start(request, profile, attached, forwards) matches ControlStepView::Done(r)
            && r.result is None && r.error == control_denial(profile, request.method@)
            && r.result_type == request.method@,
        control_start_subscriptions(m, client, request, profile) == m,
{
}

/// The parameters are those of the method.
pub open spec fn params_belong(method: ControlMethod, params: ControlParams) -> bool {
    match method {
        ControlMethod::OpenChannel => params is OpenChannel,
        ControlMethod::ConnectPeer => params is ConnectPeer,
        ControlMethod::DisconnectPeer => params is DisconnectPeer,
        ControlMethod::CloseChannel => params is CloseChannel,
        ControlMethod::GetChannelFees => params is GetChannelFees,
        ControlMethod::SetChannelFees => params is SetChannelFees,
        ControlMethod::ListNetworkNodes => params is ListNetworkNodes,
        ControlMethod::GetNetworkNode => params is GetNetworkNode,
        ControlMethod::GetNetworkChannel => params is GetNetworkChannel,
        ControlMethod::GetForwardingHistory => params is GetForwardingHistory,
        ControlMethod::SubscribeNotifications => params is SubscribeNotifications,
        ControlMethod::QueryRoutes | ControlMethod::EstimateRouteFee => params is Route,
        ControlMethod::ListChannels | ControlMethod::ListPeers | ControlMethod::GetNetworkStats
        | ControlMethod::GetPendingHtlcs => params is Empty,
    }
}

/// Every control request whose parameters are those of its method is answered
/// or asks the node for something.
pub proof fn control_requests_start<R>(
    request: ControlRequest,
    profile: Option<UsageProfile<R>>,
    attached: bool,
    forwards: Seq<ForwardingView>,
)
    requires
        control_named(request.method@) matches Some(method) ==> params_belong(
            method,
            request.params,
        ),
    ensures
        !(control_start(request, profile, attached, forwards) is Halt),
{
}

} // verus!
