use ldk_controller::access::UsageProfile;
use ldk_controller::control::messages::{
    CloseChannelParams, ConnectPeerParams, ControlParams, ControlRequest, ControlResponse,
    ControlResult, DisconnectPeerParams, GetChannelFeesParams, GetForwardingHistoryParams,
    GetNetworkChannelParams, GetNetworkNodeParams, ListNetworkNodesParams, OpenChannelParams,
    RouteParams, SetChannelFeesParams, SubscribeParams,
};
use ldk_controller::control::proceed::resume_control_request;
use ldk_controller::control::request::{
    malformed_control_request, process_control_request, ControlStep,
};
use ldk_controller::lightning::graph::{ChannelPolicy, GraphChannel, NodeId};
use ldk_controller::lightning::ldk_service::Network;
use ldk_controller::lightning::node::{
    Announcement, ChannelDetails, GraphNode, NodeCall, NodeReply, PeerDetails,
};
use ldk_controller::lightning::parse::NodeAddress;
use ldk_controller::lightning::service::LdkService;
use ldk_controller::state::forwarding_store::{record_forward, ForwardingEntry};
use ldk_controller::state::stores::Stores;
use ldk_controller::state::subscription_store::is_subscribed;
use ldk_controller::MethodAccessRule;

const CLIENT: &str = "c1";
const G: &str = "0279be667ef9dcbbac55a06295ce870b07029bfcdb2dce28d959f2815b16f81798";
const TWO_G: &str = "02c6047f9441ed7d6d3045406e95c07cd85c778e4b8cef3ca7abac09b95c709ee5";

fn id_of(text: &str) -> NodeId {
    let mut bytes = [0u8; 33];
    for (i, b) in bytes.iter_mut().enumerate() {
        *b = u8::from_str_radix(&text[2 * i..2 * i + 2], 16).unwrap();
    }
    NodeId { bytes }
}

fn service() -> LdkService {
    LdkService::from_node(id_of(G), Network::Regtest)
}

fn listing(names: &[&str]) -> UsageProfile<u8> {
    UsageProfile {
        quota: None,
        methods: None,
        control: Some(
            names.iter().map(|n| (n.to_string(), MethodAccessRule { access_rate: None })).collect(),
        ),
    }
}

fn ask(method: &str, params: ControlParams) -> ControlRequest {
    ControlRequest { method: method.to_string(), params }
}

fn answered(step: ControlStep) -> ControlResponse {
    match step {
        ControlStep::Done(response) => response,
        other => panic!("not answered: {:?}", other),
    }
}

fn call_of(step: ControlStep) -> NodeCall {
    match step {
        ControlStep::Ask(call) => call,
        other => panic!("asks for nothing: {:?}", other),
    }
}

fn begin(request: &ControlRequest, service: Option<&LdkService>) -> ControlStep {
    process_control_request(
        request,
        CLIENT,
        Some(&listing(&["ALL"])),
        service,
        &mut Stores::new(),
    )
}

fn code_and_message(response: ControlResponse) -> (String, String) {
    let e = response.error.expect("an error");
    assert!(response.result.is_none());
    (e.code, e.message)
}

fn channel(n: u8, peer: &str) -> ChannelDetails {
    ChannelDetails {
        channel_id: format!("{:02x}", n).repeat(32),
        user_channel_id: n as u128,
        counterparty: id_of(peer),
        short_channel_id: Some((700_000u64 << 40) | (3 << 16) | 1),
        funding_txo: None,
        is_channel_ready: true,
        is_usable: true,
        is_announced: false,
        outbound_capacity_msat: 600_000,
        inbound_capacity_msat: 400_000,
        channel_value_sats: 1_000,
        forwarding_fee_base_msat: 1_000,
        forwarding_fee_proportional_millionths: 100,
        inbound_htlc_minimum_msat: 1,
        inbound_htlc_maximum_msat: Some(900_000),
    }
}

fn policy(base: u32) -> Option<ChannelPolicy> {
    Some(ChannelPolicy {
        base_msat: base,
        proportional_millionths: 0,
        htlc_minimum_msat: 1,
        htlc_maximum_msat: 1_000_000_000,
        cltv_expiry_delta: 40,
        enabled: true,
        last_update: 5,
    })
}

fn edge(scid: u64, a: NodeId, b: NodeId, base: u32) -> GraphChannel {
    GraphChannel {
        scid,
        node_one: a,
        node_two: b,
        capacity_sats: Some(1_000_000),
        one_to_two: policy(base),
        two_to_one: policy(base),
    }
}

#[test]
fn control_denied_when_control_missing() {
    let profile: UsageProfile<u8> = UsageProfile { quota: None, methods: None, control: None };
    let response = answered(process_control_request(
        &ask("list_channels", ControlParams::Empty),
        CLIENT,
        Some(&profile),
        None,
        &mut Stores::new(),
    ));
    assert_eq!(response.result_type, "list_channels");
    let (code, message) = code_and_message(response);
    assert_eq!(code, "RESTRICTED");
    assert!(
        message.contains("missing control permissions"),
        "unexpected message: {:?}",
        message
    );
}

#[test]
fn control_denied_when_method_not_listed() {
    let response = answered(process_control_request(
        &ask("list_channels", ControlParams::Empty),
        CLIENT,
        Some(&listing(&["connect_peer"])),
        None,
        &mut Stores::new(),
    ));
    assert_eq!(response.result_type, "list_channels");
    let (code, message) = code_and_message(response);
    assert_eq!(code, "RESTRICTED");
    assert!(message.contains("insufficient permission"), "unexpected message: {:?}", message);
}

#[test]
fn control_denied_without_a_grant() {
    let response = answered(process_control_request::<u8>(
        &ask("list_channels", ControlParams::Empty),
        CLIENT,
        None,
        None,
        &mut Stores::new(),
    ));
    let (code, _) = code_and_message(response);
    assert_eq!(code, "UNAUTHORIZED");
}

#[test]
fn control_allowed_when_method_listed_returns_channels_array() {
    let response = answered(process_control_request(
        &ask("list_channels", ControlParams::Empty),
        CLIENT,
        Some(&listing(&["list_channels"])),
        None,
        &mut Stores::new(),
    ));
    assert_eq!(response.result_type, "list_channels");
    assert!(response.error.is_none(), "expected no error, got: {:?}", response);
    assert!(matches!(response.result, Some(ControlResult::Channels(channels)) if channels.is_empty()));
}

#[test]
fn control_allowed_list_peers_returns_array() {
    let response = answered(process_control_request(
        &ask("list_peers", ControlParams::Empty),
        CLIENT,
        Some(&listing(&["list_peers"])),
        None,
        &mut Stores::new(),
    ));
    assert_eq!(response.result_type, "list_peers");
    assert!(response.error.is_none(), "expected no error, got: {:?}", response);
    assert!(matches!(response.result, Some(ControlResult::Peers(peers)) if peers.is_empty()));
}

#[test]
fn control_malformed_payload_returns_other() {
    let response = malformed_control_request("expected value at line 1 column 1");
    assert_eq!(response.result_type, "unknown");
    let (code, message) = code_and_message(response);
    assert_eq!(code, "OTHER");
    assert!(
        message.contains("invalid control request payload"),
        "unexpected message: {:?}",
        message
    );
}

#[test]
fn control_stubs_return_not_implemented() {
    let route = || {
        ControlParams::Route(RouteParams { destination: None, amount: None, max_routes: None })
    };
    for (method, params) in [
        ("get_pending_htlcs", ControlParams::Empty),
        ("estimate_route_fee", route()),
        ("query_routes", route()),
    ] {
        let response = answered(begin(&ask(method, params), None));
        assert_eq!(response.result_type, method);
        let (code, _) = code_and_message(response);
        assert_eq!(code, "NOT_IMPLEMENTED", "expected NOT_IMPLEMENTED for {method}");
    }
}

#[test]
fn unknown_control_methods_are_not_implemented() {
    let response = answered(begin(&ask("fly", ControlParams::Empty), None));
    let (code, message) = code_and_message(response);
    assert_eq!(code, "NOT_IMPLEMENTED");
    assert_eq!(message, "unknown control method: fly");
}

fn open(host: Option<&str>, amount: u64) -> ControlRequest {
    ask(
        "open_channel",
        ControlParams::OpenChannel(Ok(OpenChannelParams {
            pubkey: TWO_G.to_string(),
            host: host.map(|h| h.to_string()),
            amount,
            push_amount: Some(1_000_000_000),
        })),
    )
}

#[test]
fn control_open_channel_then_list_channels() {
    let node = service();
    let request = open(Some("127.0.0.1:9735"), 2_000_000);
    let call = call_of(begin(&request, Some(&node)));
    match &call {
        NodeCall::OpenChannel { node_id, address, amount_sats, push_msat } => {
            assert_eq!(node_id.to_string(), TWO_G);
            assert!(matches!(
                address,
                NodeAddress::TcpIpV4 { addr: [127, 0, 0, 1], port: 9735 }
            ));
            assert_eq!(*amount_sats, 2_000_000);
            assert_eq!(*push_msat, Some(1_000_000_000));
        }
        other => panic!("{:?}", other),
    }
    let response =
        answered(resume_control_request(&request, &node, &call, NodeReply::Done(Ok(()))));
    assert!(response.error.is_none(), "open_channel returned error: {:?}", response);

    let list = ask("list_channels", ControlParams::Empty);
    let call = call_of(begin(&list, Some(&node)));
    let response = answered(resume_control_request(
        &list,
        &node,
        &call,
        NodeReply::Channels(vec![channel(1, TWO_G)]),
    ));
    match response.result {
        Some(ControlResult::Channels(channels)) => {
            assert_eq!(channels.len(), 1);
            assert_eq!(channels[0].id, "01".repeat(32));
            assert_eq!(channels[0].peer_pubkey, TWO_G);
            assert_eq!(channels[0].capacity, 1_000_000);
            assert_eq!(channels[0].short_channel_id, Some("700000x3x1".to_string()));
        }
        other => panic!("{:?}", other),
    }

    let close = ask(
        "close_channel",
        ControlParams::CloseChannel(Ok(CloseChannelParams {
            id: "01".repeat(32),
            force: false,
        })),
    );
    let call = call_of(begin(&close, Some(&node)));
    let call = call_of(resume_control_request(
        &close,
        &node,
        &call,
        NodeReply::Channels(vec![channel(1, TWO_G)]),
    ));
    assert!(matches!(call, NodeCall::CloseChannel { user_channel_id: 1, .. }));
    let response =
        answered(resume_control_request(&close, &node, &call, NodeReply::Done(Ok(()))));
    assert!(response.error.is_none());
}

#[test]
fn channels_need_an_amount_and_an_address() {
    let node = service();
    let (_, message) = code_and_message(answered(begin(&open(Some("x:1"), 0), Some(&node))));
    assert_eq!(message, "amount must be greater than 0");
    let request = open(None, 20_000);
    let call = call_of(begin(&request, Some(&node)));
    assert!(matches!(call, NodeCall::ListPeers));
    let (_, message) = code_and_message(answered(resume_control_request(
        &request,
        &node,
        &call,
        NodeReply::Peers { peers: Vec::new(), channels: Vec::new() },
    )));
    assert_eq!(message, "peer not connected and no host provided");
    let peer = PeerDetails {
        node_id: id_of(TWO_G),
        address: "10.0.0.7:9735".to_string(),
        is_connected: true,
    };
    let call = call_of(resume_control_request(
        &request,
        &node,
        &call,
        NodeReply::Peers { peers: vec![peer], channels: Vec::new() },
    ));
    assert!(matches!(
        call,
        NodeCall::OpenChannel {
            address: NodeAddress::TcpIpV4 { addr: [10, 0, 0, 7], port: 9735 },
            amount_sats: 20_000,
            ..
        }
    ));
}

#[test]
fn peers_are_connected_and_disconnected() {
    let node = service();
    let connect = |pubkey: &str, host: &str| {
        ask(
            "connect_peer",
            ControlParams::ConnectPeer(Ok(ConnectPeerParams {
                pubkey: pubkey.to_string(),
                host: host.to_string(),
            })),
        )
    };
    let request = connect(TWO_G, "localhost:9735");
    let call = call_of(begin(&request, Some(&node)));
    match &call {
        NodeCall::ConnectPeer { address: NodeAddress::Hostname { hostname, port }, .. } => {
            assert_eq!(hostname, "localhost");
            assert_eq!(*port, 9735);
        }
        other => panic!("{:?}", other),
    }
    let response = answered(resume_control_request(
        &request,
        &node,
        &call,
        NodeReply::Done(Err("refused".to_string())),
    ));
    let (code, message) = code_and_message(response);
    assert_eq!(code, "OTHER");
    assert!(message.contains("peer operation failed: refused"), "{}", message);
    let (_, message) =
        code_and_message(answered(begin(&connect(TWO_G, "nowhere"), Some(&node))));
    assert!(
        message.starts_with("connect_peer failed: peer operation failed: Invalid input format"),
        "{}",
        message
    );
    let (_, message) =
        code_and_message(answered(begin(&connect("zz", "localhost:1"), Some(&node))));
    assert!(message.contains("invalid pubkey"), "{}", message);

    let request = ask(
        "disconnect_peer",
        ControlParams::DisconnectPeer(Ok(DisconnectPeerParams { pubkey: TWO_G.to_string() })),
    );
    let call = call_of(begin(&request, Some(&node)));
    assert!(matches!(call, NodeCall::DisconnectPeer { .. }));
    let response =
        answered(resume_control_request(&request, &node, &call, NodeReply::Done(Ok(()))));
    assert!(matches!(response.result, Some(ControlResult::Disconnected)));
    let bad = ask("disconnect_peer", ControlParams::DisconnectPeer(Err("no key".to_string())));
    let (_, message) = code_and_message(answered(begin(&bad, Some(&node))));
    assert!(message.contains("no key"), "{}", message);
}

#[test]
fn channel_fees_are_told_and_changed() {
    let node = service();
    let get = ask(
        "get_channel_fees",
        ControlParams::GetChannelFees(Ok(GetChannelFeesParams { id: Some("02".repeat(32)) })),
    );
    let call = call_of(begin(&get, Some(&node)));
    let response = answered(resume_control_request(
        &get,
        &node,
        &call,
        NodeReply::Channels(vec![channel(1, TWO_G), channel(2, TWO_G)]),
    ));
    match response.result {
        Some(ControlResult::Fees(fees)) => {
            assert_eq!(fees.len(), 1);
            assert_eq!(fees[0].id, "02".repeat(32));
            assert_eq!(fees[0].base_fee, 1_000);
            assert_eq!(fees[0].fee_rate, 100);
        }
        other => panic!("{:?}", other),
    }
    let set = |id: String| {
        ask(
            "set_channel_fees",
            ControlParams::SetChannelFees(Ok(SetChannelFeesParams {
                id,
                base_fee_msat: Some(7),
                fee_rate: None,
            })),
        )
    };
    let request = set("01".repeat(32));
    let call = call_of(begin(&request, Some(&node)));
    let call = call_of(resume_control_request(
        &request,
        &node,
        &call,
        NodeReply::Channels(vec![channel(1, TWO_G)]),
    ));
    assert!(matches!(
        call,
        NodeCall::UpdateChannelFees { base_fee_msat: 7, fee_rate: 100, user_channel_id: 1, .. }
    ));
    let request = set("09".repeat(32));
    let missing = resume_control_request(
        &request,
        &node,
        &NodeCall::ListChannels,
        NodeReply::Channels(vec![channel(1, TWO_G)]),
    );
    let (code, message) = code_and_message(answered(missing));
    assert_eq!(code, "NOT_FOUND");
    assert!(message.contains("channel operation failed"), "{}", message);
}

#[test]
fn the_network_is_told() {
    let node = service();
    let a = id_of(G);
    let b = id_of(TWO_G);
    let graph_node = GraphNode {
        id: b,
        announcement: Some(Announcement {
            alias: "bob".to_string(),
            rgb: [1, 2, 255],
            addresses: vec!["10.0.0.1:9735".to_string()],
            last_update: 77,
        }),
        channels: vec![Some(edge(1, a, b, 1)), None],
    };
    let list = ask(
        "list_network_nodes",
        ControlParams::ListNetworkNodes(Ok(ListNetworkNodesParams { limit: 1, offset: 1 })),
    );
    let call = call_of(begin(&list, Some(&node)));
    let call = call_of(resume_control_request(
        &list,
        &node,
        &call,
        NodeReply::NodeIds(vec![a, b]),
    ));
    match &call {
        NodeCall::ReadNodes { ids } => {
            assert_eq!(ids.len(), 1);
            assert_eq!(ids[0].to_string(), TWO_G);
        }
        other => panic!("{:?}", other),
    }
    let response = answered(resume_control_request(
        &list,
        &node,
        &call,
        NodeReply::Nodes(vec![Some(graph_node)]),
    ));
    match response.result {
        Some(ControlResult::Nodes(nodes)) => {
            assert_eq!(nodes[0].alias, "bob");
            assert_eq!(nodes[0].color, "#0102ff");
            assert_eq!(nodes[0].total_capacity, 1_000_000);
            assert_eq!(nodes[0].last_update, 77);
        }
        other => panic!("{:?}", other),
    }

    let one = ask(
        "get_network_node",
        ControlParams::GetNetworkNode(Ok(GetNetworkNodeParams { pubkey: TWO_G.to_string() })),
    );
    let call = call_of(begin(&one, Some(&node)));
    let (code, message) = code_and_message(answered(resume_control_request(
        &one,
        &node,
        &call,
        NodeReply::Nodes(vec![None]),
    )));
    assert_eq!(code, "NOT_FOUND");
    assert_eq!(message, format!("node not found: {}", TWO_G));

    let stats = ask("get_network_stats", ControlParams::Empty);
    let call = call_of(begin(&stats, Some(&node)));
    let response = answered(resume_control_request(
        &stats,
        &node,
        &call,
        NodeReply::Network {
            num_nodes: 2,
            channels: vec![Some(edge(1, a, b, 1)), Some(edge(2, a, b, 1)), None],
        },
    ));
    match response.result {
        Some(ControlResult::Stats(s)) => {
            assert_eq!(s.num_nodes, 2);
            assert_eq!(s.num_channels, 3);
            assert_eq!(s.total_capacity, 2_000_000);
            assert_eq!(s.avg_channel_size, 666_666);
            assert_eq!(s.max_channel_size, 1_000_000);
        }
        other => panic!("{:?}", other),
    }

    let channel = |scid: &str| {
        ask(
            "get_network_channel",
            ControlParams::GetNetworkChannel(Ok(GetNetworkChannelParams {
                short_channel_id: scid.to_string(),
            })),
        )
    };
    let request = channel("1x2x3");
    let call = call_of(begin(&request, Some(&node)));
    assert!(matches!(call, NodeCall::ReadChannel { scid } if scid == (1 << 40) | (2 << 16) | 3));
    let response = answered(resume_control_request(
        &request,
        &node,
        &call,
        NodeReply::Channel(Some(edge(9, a, b, 4))),
    ));
    match response.result {
        Some(ControlResult::Channel(c)) => {
            assert_eq!(c.short_channel_id, "1x2x3");
            assert_eq!(c.node1_policy.unwrap().base_fee, 4);
        }
        other => panic!("{:?}", other),
    }
    let (_, message) = code_and_message(answered(begin(&channel("1x2"), Some(&node))));
    assert!(message.contains("invalid scid format: 1x2"), "{}", message);
}

#[test]
fn routes_are_found_and_priced() {
    let node = service();
    let a = id_of(G);
    let b = id_of(TWO_G);
    let m = NodeId { bytes: [3; 33] };
    let channels = || {
        vec![
            Some(edge(1, a, b, 5_000)),
            Some(edge(2, a, m, 10)),
            Some(edge(3, m, b, 20)),
            None,
        ]
    };
    let route = |destination: &str, max: Option<u64>| {
        ControlParams::Route(RouteParams {
            destination: Some(destination.to_string()),
            amount: Some(100_000),
            max_routes: max,
        })
    };
    let query = ask("query_routes", route(TWO_G, Some(2)));
    let call = call_of(begin(&query, Some(&node)));
    assert!(matches!(call, NodeCall::ReadNetwork));
    let response = answered(resume_control_request(
        &query,
        &node,
        &call,
        NodeReply::Network { num_nodes: 3, channels: channels() },
    ));
    let first = match response.result {
        Some(ControlResult::Routes(routes)) => {
            assert_eq!(routes[0].hops.len(), 2);
            assert_eq!(routes[0].total_fee, 30);
            assert_eq!(routes[0].hops[1].pubkey, TWO_G);
            assert_eq!(routes[0].hops[0].short_channel_id, "0x0x2");
            routes[0].total_fee
        }
        other => panic!("{:?}", other),
    };
    let estimate = ask("estimate_route_fee", route(TWO_G, None));
    let response = answered(resume_control_request(
        &estimate,
        &node,
        &NodeCall::ReadNetwork,
        NodeReply::Network { num_nodes: 3, channels: channels() },
    ));
    match response.result {
        Some(ControlResult::RouteFee { fee, time_lock_delay }) => {
            assert_eq!(fee, first);
            assert_eq!(time_lock_delay, 80);
        }
        other => panic!("{:?}", other),
    }
    let nowhere = ask("query_routes", route(&"03".repeat(33), None));
    let (code, message) = code_and_message(answered(resume_control_request(
        &nowhere,
        &node,
        &NodeCall::ReadNetwork,
        NodeReply::Network { num_nodes: 0, channels: Vec::new() },
    )));
    assert_eq!(code, "NOT_FOUND");
    assert_eq!(message, "no route found to destination");
}

#[test]
fn forwards_are_told_in_pages() {
    let mut stores = Stores::new();
    for settled_at in [10, 20, 30, 40] {
        record_forward(
            &mut stores.forwards,
            ForwardingEntry {
                incoming_channel_id: "in".to_string(),
                outgoing_channel_id: "out".to_string(),
                incoming_amount: 11,
                outgoing_amount: 10,
                fee_earned: 1,
                settled_at,
            },
        );
    }
    let history = ask(
        "get_forwarding_history",
        ControlParams::GetForwardingHistory(Ok(GetForwardingHistoryParams {
            from: Some(20),
            until: None,
            limit: 1,
            offset: 1,
        })),
    );
    let response = answered(process_control_request(
        &history,
        CLIENT,
        Some(&listing(&["get_forwarding_history"])),
        None,
        &mut stores,
    ));
    match response.result {
        Some(ControlResult::Forwards(list)) => {
            assert_eq!(list.len(), 1);
            assert_eq!(list[0].settled_at, 30);
        }
        other => panic!("{:?}", other),
    }
}

#[test]
fn clients_subscribe_to_events_of_the_node() {
    let mut stores = Stores::new();
    let mut subscribe = |types: &[&str]| {
        let request = ask(
            "subscribe_notifications",
            ControlParams::SubscribeNotifications(Ok(SubscribeParams {
                types: types.iter().map(|t| t.to_string()).collect(),
            })),
        );
        let response = answered(process_control_request(
            &request,
            CLIENT,
            Some(&listing(&["ALL"])),
            None,
            &mut stores,
        ));
        let told = is_subscribed(&stores.subscriptions, CLIENT, "channel_opened");
        (response.error, told)
    };
    assert!(matches!(subscribe(&["channel_opened"]), (None, true)));
    match subscribe(&["payment_sent"]) {
        (Some(e), told) => {
            assert_eq!(e.message, "unknown notification type: payment_sent");
            assert!(told);
        }
        other => panic!("{:?}", other),
    }
    assert!(matches!(subscribe(&[]), (None, false)));
}

#[test]
fn without_a_node_control_requests_say_so() {
    for request in [
        open(Some("127.0.0.1:1"), 1),
        ask(
            "set_channel_fees",
            ControlParams::SetChannelFees(Ok(SetChannelFeesParams {
                id: "a".to_string(),
                base_fee_msat: None,
                fee_rate: None,
            })),
        ),
    ] {
        let (code, message) = code_and_message(answered(begin(&request, None)));
        assert_eq!(code, "OTHER");
        assert!(message.contains("ldk service"), "{}", message);
    }
}

#[test]
fn figures_that_do_not_fit_halt() {
    let node = service();
    let list = ask("list_channels", ControlParams::Empty);
    let mut huge = channel(1, TWO_G);
    huge.channel_value_sats = u64::MAX;
    assert!(matches!(
        resume_control_request(
            &list,
            &node,
            &NodeCall::ListChannels,
            NodeReply::Channels(vec![huge]),
        ),
        ControlStep::Halt
    ));
}
