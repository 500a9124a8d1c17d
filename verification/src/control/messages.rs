//! The messages of the control protocol, as far as the service reads and writes
//! them.

use vstd::prelude::*;

use crate::access::{MethodAccessRule, UsageProfile};
use crate::lightning::ldk_service::{
    FoundRoute, LdkChannelFees, LdkChannelInfo, LdkPeerInfo, NetworkChannelInfo, NetworkNodeInfo,
    NetworkStats, RouteHop,
};
#[allow(unused_imports)]
use crate::state::forwarding_store::{entry_views, ForwardingView};
use crate::state::forwarding_store::ForwardingEntry;
use crate::text::{copy_text, same_text};
#[allow(unused_imports)]
use crate::views::{option_view, views};

verus! {

/// What a client asks the node to do.
#[derive(Debug, Clone, Copy, PartialEq, Eq, Structural)]
pub enum ControlMethod {
    ConnectPeer,
    OpenChannel,
    CloseChannel,
    ListChannels,
    ListPeers,
    DisconnectPeer,
    SubscribeNotifications,
    GetChannelFees,
    SetChannelFees,
    ListNetworkNodes,
    GetNetworkNode,
    GetNetworkStats,
    GetNetworkChannel,
    GetForwardingHistory,
    GetPendingHtlcs,
    EstimateRouteFee,
    QueryRoutes,
}

/// The control methods that the service supports, by name.
pub open spec fn control_names() -> Seq<Seq<char>> {
    seq![
        "connect_peer"@,
        "open_channel"@,
        "close_channel"@,
        "list_channels"@,
        "list_peers"@,
        "disconnect_peer"@,
        "subscribe_notifications"@,
        "get_channel_fees"@,
        "set_channel_fees"@,
        "list_network_nodes"@,
        "get_network_node"@,
        "get_network_stats"@,
        "get_network_channel"@,
        "get_forwarding_history"@,
        "get_pending_htlcs"@,
        "estimate_route_fee"@,
        "query_routes"@,
    ]
}

/// The control method with the given name, if the service supports it.
pub open spec fn control_named(name: Seq<char>) -> Option<ControlMethod> {
    if name == "connect_peer"@ {
        Some(ControlMethod::ConnectPeer)
    } else if name == "open_channel"@ {
        Some(ControlMethod::OpenChannel)
    } else if name == "close_channel"@ {
        Some(ControlMethod::CloseChannel)
    } else if name == "list_channels"@ {
        Some(ControlMethod::ListChannels)
    } else if name == "list_peers"@ {
        Some(ControlMethod::ListPeers)
    } else if name == "disconnect_peer"@ {
        Some(ControlMethod::DisconnectPeer)
    } else if name == "subscribe_notifications"@ {
        Some(ControlMethod::SubscribeNotifications)
    } else if name == "get_channel_fees"@ {
        Some(ControlMethod::GetChannelFees)
    } else if name == "set_channel_fees"@ {
        Some(ControlMethod::SetChannelFees)
    } else if name == "list_network_nodes"@ {
        Some(ControlMethod::ListNetworkNodes)
    } else if name == "get_network_node"@ {
        Some(ControlMethod::GetNetworkNode)
    } else if name == "get_network_stats"@ {
        Some(ControlMethod::GetNetworkStats)
    } else if name == "get_network_channel"@ {
        Some(ControlMethod::GetNetworkChannel)
    } else if name == "get_forwarding_history"@ {
        Some(ControlMethod::GetForwardingHistory)
    } else if name == "get_pending_htlcs"@ {
        Some(ControlMethod::GetPendingHtlcs)
    } else if name == "estimate_route_fee"@ {
        Some(ControlMethod::EstimateRouteFee)
    } else if name == "query_routes"@ {
        Some(ControlMethod::QueryRoutes)
    } else {
        None
    }
}

/// The control method with the given name, if the service supports it.
pub fn control_method(name: &str) -> (out: Option<ControlMethod>)
    ensures
        out == control_named(name@),
{
    if same_text(name, "connect_peer") {
        Some(ControlMethod::ConnectPeer)
    } else if same_text(name, "open_channel") {
        Some(ControlMethod::OpenChannel)
    } else if same_text(name, "close_channel") {
        Some(ControlMethod::CloseChannel)
    } else if same_text(name, "list_channels") {
        Some(ControlMethod::ListChannels)
    } else if same_text(name, "list_peers") {
        Some(ControlMethod::ListPeers)
    } else if same_text(name, "disconnect_peer") {
        Some(ControlMethod::DisconnectPeer)
    } else if same_text(name, "subscribe_notifications") {
        Some(ControlMethod::SubscribeNotifications)
    } else if same_text(name, "get_channel_fees") {
        Some(ControlMethod::GetChannelFees)
    } else if same_text(name, "set_channel_fees") {
        Some(ControlMethod::SetChannelFees)
    } else if same_text(name, "list_network_nodes") {
        Some(ControlMethod::ListNetworkNodes)
    } else if same_text(name, "get_network_node") {
        Some(ControlMethod::GetNetworkNode)
    } else if same_text(name, "get_network_stats") {
        Some(ControlMethod::GetNetworkStats)
    } else if same_text(name, "get_network_channel") {
        Some(ControlMethod::GetNetworkChannel)
    } else if same_text(name, "get_forwarding_history") {
        Some(ControlMethod::GetForwardingHistory)
    } else if same_text(name, "get_pending_htlcs") {
        Some(ControlMethod::GetPendingHtlcs)
    } else if same_text(name, "estimate_route_fee") {
        Some(ControlMethod::EstimateRouteFee)
    } else if same_text(name, "query_routes") {
        Some(ControlMethod::QueryRoutes)
    } else {
        None
    }
}

/// A control method is supported exactly if its name is on the list that is
/// published.
pub proof fn supported_control_methods_are_listed(name: Seq<char>)
    ensures
        control_named(name) is Some <==> control_names().contains(name),
{
    let list = control_names();
    assert(list[0] == "connect_peer"@);
    assert(list[1] == "open_channel"@);
    assert(list[2] == "close_channel"@);
    assert(list[3] == "list_channels"@);
    assert(list[4] == "list_peers"@);
    assert(list[5] == "disconnect_peer"@);
    assert(list[6] == "subscribe_notifications"@);
    assert(list[7] == "get_channel_fees"@);
    assert(list[8] == "set_channel_fees"@);
    assert(list[9] == "list_network_nodes"@);
    assert(list[10] == "get_network_node"@);
    assert(list[11] == "get_network_stats"@);
    assert(list[12] == "get_network_channel"@);
    assert(list[13] == "get_forwarding_history"@);
    assert(list[14] == "get_pending_htlcs"@);
    assert(list[15] == "estimate_route_fee"@);
    assert(list[16] == "query_routes"@);
}

/// How many elements a list holds at most where a client does not say.
pub const DEFAULT_LIMIT: usize = 100;

/// How many routes a query asks for where a client does not say.
pub const DEFAULT_ROUTES: u64 = 1;

#[derive(Debug)]
pub struct OpenChannelParams {
    pub pubkey: String,
    pub host: Option<String>,
    /// In satoshis.
    pub amount: u64,
    /// In millisatoshis.
    pub push_amount: Option<u64>,
}

#[derive(Debug)]
pub struct ConnectPeerParams {
    pub pubkey: String,
    pub host: String,
}

#[derive(Debug)]
pub struct DisconnectPeerParams {
    pub pubkey: String,
}

#[derive(Debug)]
pub struct CloseChannelParams {
    pub id: String,
    pub force: bool,
}

#[derive(Debug)]
pub struct GetChannelFeesParams {
    pub id: Option<String>,
}

#[derive(Debug)]
pub struct SetChannelFeesParams {
    pub id: String,
    pub base_fee_msat: Option<u32>,
    pub fee_rate: Option<u32>,
}

#[derive(Debug)]
pub struct ListNetworkNodesParams {
    pub limit: usize,
    pub offset: usize,
}

#[derive(Debug)]
pub struct GetNetworkNodeParams {
    pub pubkey: String,
}

#[derive(Debug)]
pub struct GetNetworkChannelParams {
    pub short_channel_id: String,
}

#[derive(Debug)]
pub struct GetForwardingHistoryParams {
    pub from: Option<u64>,
    pub until: Option<u64>,
    pub limit: usize,
    pub offset: usize,
}

#[derive(Debug)]
pub struct SubscribeParams {
    pub types: Vec<String>,
}

/// What a query for routes says. What it leaves out, or says in another type,
/// is `None`.
#[derive(Debug)]
pub struct RouteParams {
    pub destination: Option<String>,
    pub amount: Option<u64>,
    pub max_routes: Option<u64>,
}

/// The parameters of a control request: what was read, or why it could not be.
#[derive(Debug)]
pub enum ControlParams {
    /// The method has no parameters.
    Empty,
    OpenChannel(Result<OpenChannelParams, String>),
    ConnectPeer(Result<ConnectPeerParams, String>),
    DisconnectPeer(Result<DisconnectPeerParams, String>),
    CloseChannel(Result<CloseChannelParams, String>),
    GetChannelFees(Result<GetChannelFeesParams, String>),
    SetChannelFees(Result<SetChannelFeesParams, String>),
    ListNetworkNodes(Result<ListNetworkNodesParams, String>),
    GetNetworkNode(Result<GetNetworkNodeParams, String>),
    GetNetworkChannel(Result<GetNetworkChannelParams, String>),
    GetForwardingHistory(Result<GetForwardingHistoryParams, String>),
    SubscribeNotifications(Result<SubscribeParams, String>),
    Route(RouteParams),
}

/// A control request.
#[derive(Debug)]
pub struct ControlRequest {
    pub method: String,
    pub params: ControlParams,
}

/// Why a control request was not carried out.
#[derive(Debug)]
pub struct ControlError<S = String> {
    pub code: S,
    pub message: S,
}

impl View for ControlError {
    type V = ControlError<Seq<char>>;

    open spec fn view(&self) -> ControlError<Seq<char>> {
        ControlError { code: self.code@, message: self.message@ }
    }
}

/// An error with the given code and message.
pub fn control_error(code: &str, message: &str) -> (out: ControlError)
    ensures
        out@ == (ControlError { code: code@, message: message@ }),
{
    ControlError { code: copy_text(code), message: copy_text(message) }
}

/// What a control request came to.
#[derive(Debug)]
pub enum ControlResult {
    Empty,
    Connected,
    Disconnected,
    Channels(Vec<LdkChannelInfo>),
    Peers(Vec<LdkPeerInfo>),
    Fees(Vec<LdkChannelFees>),
    Nodes(Vec<NetworkNodeInfo>),
    Node(NetworkNodeInfo),
    Stats(NetworkStats),
    Channel(NetworkChannelInfo),
    Forwards(Vec<ForwardingEntry>),
    Routes(Vec<FoundRoute>),
    RouteFee { fee: u64, time_lock_delay: u32 },
}

/// A [`ControlResult`] over sequences.
pub enum ControlResultView {
    Empty,
    Connected,
    Disconnected,
    Channels(Seq<LdkChannelInfo<Seq<char>>>),
    Peers(Seq<LdkPeerInfo<Seq<char>>>),
    Fees(Seq<LdkChannelFees<Seq<char>>>),
    Nodes(Seq<NetworkNodeInfo<Seq<char>, Seq<Seq<char>>>>),
    Node(NetworkNodeInfo<Seq<char>, Seq<Seq<char>>>),
    Stats(NetworkStats),
    Channel(NetworkChannelInfo<Seq<char>>),
    Forwards(Seq<ForwardingView>),
    Routes(Seq<FoundRoute<Seq<RouteHop<Seq<char>>>>>),
    RouteFee { fee: u64, time_lock_delay: u32 },
}

impl View for ControlResult {
    type V = ControlResultView;

    open spec fn view(&self) -> ControlResultView {
        match *self {
            ControlResult::Empty => ControlResultView::Empty,
            ControlResult::Connected => ControlResultView::Connected,
            ControlResult::Disconnected => ControlResultView::Disconnected,
            ControlResult::Channels(list) => ControlResultView::Channels(views(list@)),
            ControlResult::Peers(list) => ControlResultView::Peers(views(list@)),
            ControlResult::Fees(list) => ControlResultView::Fees(views(list@)),
            ControlResult::Nodes(list) => ControlResultView::Nodes(views(list@)),
            ControlResult::Node(n) => ControlResultView::Node(n@),
            ControlResult::Stats(s) => ControlResultView::Stats(s),
            ControlResult::Channel(c) => ControlResultView::Channel(c@),
            ControlResult::Forwards(list) => ControlResultView::Forwards(entry_views(list@)),
            ControlResult::Routes(list) => ControlResultView::Routes(views(list@)),
            ControlResult::RouteFee { fee, time_lock_delay } => ControlResultView::RouteFee {
                fee,
                time_lock_delay,
            },
        }
    }
}

/// An answer to a control request: a result or an error.
#[derive(Debug)]
pub struct ControlResponse {
    pub result_type: String,
    pub result: Option<ControlResult>,
    pub error: Option<ControlError>,
}

/// A [`ControlResponse`] over sequences.
pub struct ControlResponseView {
    pub result_type: Seq<char>,
    pub result: Option<ControlResultView>,
    pub error: Option<ControlError<Seq<char>>>,
}

impl View for ControlResponse {
    type V = ControlResponseView;

    open spec fn view(&self) -> ControlResponseView {
        ControlResponseView {
            result_type: self.result_type@,
            result: option_view(self.result),
            error: option_view(self.error),
        }
    }
}

/// The answer that tells an error.
pub open spec fn control_failure(method: Seq<char>, code: Seq<char>, message: Seq<char>) ->
    ControlResponseView {
    ControlResponseView {
        result_type: method,
        result: None,
        error: Some(ControlError { code, message }),
    }
}

/// The answer that tells a result.
pub open spec fn control_success(method: Seq<char>, result: ControlResultView) ->
    ControlResponseView {
    ControlResponseView { result_type: method, result: Some(result), error: None }
}

/// The answer that tells an error.
pub fn control_failed(method: &str, code: &str, message: &str) -> (out: ControlResponse)
    ensures
        out@ == control_failure(method@, code@, message@),
{
    ControlResponse {
        result_type: copy_text(method),
        result: None,
        error: Some(control_error(code, message)),
    }
}

/// The rules list the given name.
pub open spec fn lists_name<R>(rules: Seq<(String, MethodAccessRule<R>)>, name: Seq<char>) -> bool {
    exists|i: int| 0 <= i < rules.len() && (#[trigger] rules[i]).0@ == name
}

fn finds_name<R>(rules: &Vec<(String, MethodAccessRule<R>)>, name: &str) -> (out: bool)
    ensures
        out == lists_name(rules@, name@),
{
    let mut i: usize = 0;
    while i < rules.len()
        invariant
            i <= rules.len(),
            forall|k: int| 0 <= k < i ==> (#[trigger] rules@[k]).0@ != name@,
        decreases rules.len() - i,
    {
        if same_text(rules[i].0.as_str(), name) {
            assert(rules@[i as int].0@ == name@);
            return true;
        }
        i += 1;
    }
    false
}

/// Why a client may not call a control method, if it may not. It needs a
/// profile that lists the method, or all methods, among its control methods.
pub open spec fn control_denial<R>(
    profile: Option<UsageProfile<R>>,
    method: Seq<char>,
) -> Option<ControlError<Seq<char>>> {
    match profile {
        None => Some(ControlError { code: "UNAUTHORIZED"@, message: "unauthorized"@ }),
        Some(profile) => match profile.control {
            None => Some(
                ControlError {
                    code: "RESTRICTED"@,
                    message: "control access denied, missing control permissions"@,
                },
            ),
            Some(rules) => if lists_name(rules@, method) || lists_name(rules@, "ALL"@) {
                None
            } else {
                Some(
                    ControlError {
                        code: "RESTRICTED"@,
                        message: "control access denied, insufficient permission"@,
                    },
                )
            },
        },
    }
}

/// Whether a client may call a control method.
pub fn authorize_control_method<R>(profile: Option<&UsageProfile<R>>, method: &str) -> (out: Result<
    (),
    ControlError,
>)
    ensures
        match out {
            Ok(_) => control_denial(
                match profile {
                    Some(p) => Some(*p),
                    None => None,
                },
                method@,
            ) is None,
            Err(e) => control_denial(
                match profile {
                    Some(p) => Some(*p),
                    None => None,
                },
                method@,
            ) == Some(e@),
        },
{
    let profile: &UsageProfile<R> = match profile {
        Some(p) => p,
        None => {
            return Err(control_error("UNAUTHORIZED", "unauthorized"));
        },
    };
    match &profile.control {
        None => Err(
            control_error(
                "RESTRICTED",
                "control access denied, missing control permissions",
            ),
        ),
        Some(rules) => if finds_name(rules, method) || finds_name(rules, "ALL") {
            Ok(())
        } else {
            Err(control_error("RESTRICTED", "control access denied, insufficient permission"))
        },
    }
}

/// A profile that lists all control methods lets every control method through.
pub proof fn all_lets_every_control_method_through<R>(
    profile: UsageProfile<R>,
    method: Seq<char>,
)
    requires
        profile.control matches Some(rules) && lists_name(rules@, "ALL"@),
    ensures
        control_denial(Some(profile), method) is None,
{
}

} // verus!
