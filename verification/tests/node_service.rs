use ldk_controller::lightning::config::SignerTransport;
use ldk_controller::lightning::graph::{ChannelPolicy, GraphChannel, NodeId};
use ldk_controller::lightning::hex::{decode_hex, hex_pairs_aligned, hex_string};
use ldk_controller::lightning::ldk_service::{
    LdkServiceConfig, LdkServiceError, LdkServiceInitError, Network,
};
use ldk_controller::lightning::node::{ChannelDetails, NodeCall, PeerDetails};
use ldk_controller::lightning::parse::{read_uri, NodeAddress};
use ldk_controller::lightning::payments::{
    filter_payments, wait_for_outbound_payment, PaymentDetails, PaymentDirection, PaymentFilter,
    PaymentKind, PaymentStatus, PaymentWait,
};
use ldk_controller::lightning::scid::{format_scid, parse_scid};
use ldk_controller::lightning::service::LdkService;

const G: &str = "0279be667ef9dcbbac55a06295ce870b07029bfcdb2dce28d959f2815b16f81798";
const TWO_G: &str = "02c6047f9441ed7d6d3045406e95c07cd85c778e4b8cef3ca7abac09b95c709ee5";

fn id_of(text: &str) -> NodeId {
    let mut bytes = [0u8; 33];
    bytes.copy_from_slice(&decode_hex(text).unwrap());
    NodeId { bytes }
}

fn service() -> LdkService {
    LdkService::from_node(id_of(G), Network::Regtest)
}

#[test]
fn scid_text_round_trip() {
    let scid = (700_123u64 << 40) | (42u64 << 16) | 3u64;
    assert_eq!(format_scid(scid), "700123x42x3");
    assert_eq!(parse_scid("700123x42x3"), Some(scid));
    assert_eq!(parse_scid("700123x42"), None);
    assert_eq!(parse_scid("axbxc"), None);
}

#[test]
fn hex_reads_back() {
    assert_eq!(hex_string(&[0, 15, 255]), "000fff");
    assert_eq!(decode_hex("000fFF").unwrap(), vec![0, 15, 255]);
    assert_eq!(decode_hex("abc").unwrap_err(), "odd-length hex string");
    assert_eq!(decode_hex("zz").unwrap_err(), "invalid digit found in string");
    assert!(hex_pairs_aligned("00"));
    assert!(!hex_pairs_aligned("0\u{e9}0"));
}

fn config() -> LdkServiceConfig {
    LdkServiceConfig {
        network: "regtest".to_string(),
        bitcoind_rpc_host: "127.0.0.1".to_string(),
        bitcoind_rpc_port: 18443,
        bitcoind_rpc_user: "user".to_string(),
        bitcoind_rpc_password: "pass".to_string(),
        ldk_storage_dir: "/tmp/ldk".to_string(),
        ldk_listen_addr: Some("0.0.0.0:9735".to_string()),
        node_alias: None,
        signer_transport: "embedded".to_string(),
        signer_relay: None,
        signer_nsec: None,
        signer_pubkey: None,
    }
}

#[test]
fn networks_have_their_names() {
    for (name, network) in [
        ("bitcoin", Network::Bitcoin),
        ("testnet", Network::Testnet),
        ("signet", Network::Signet),
        ("regtest", Network::Regtest),
    ] {
        let mut cfg = config();
        cfg.network = name.to_string();
        assert_eq!(cfg.parse_network().unwrap(), network);
        assert_eq!(LdkService::from_node(id_of(G), network).network(), name);
    }
    let mut cfg = config();
    cfg.network = "moon".to_string();
    match cfg.parse_network() {
        Err(LdkServiceInitError::InvalidNetwork { network }) => assert_eq!(network, "moon"),
        other => panic!("{:?}", other),
    }
}

#[test]
fn configurations_are_checked() {
    assert!(config().validate().is_ok());
    let mut blank = config();
    blank.bitcoind_rpc_host = "  ".to_string();
    assert!(matches!(blank.validate(), Err(LdkServiceInitError::InvalidConfig(_))));
    let mut storage = config();
    storage.ldk_storage_dir = String::new();
    assert!(matches!(storage.validate(), Err(LdkServiceInitError::InvalidConfig(_))));
    let mut listen = config();
    listen.ldk_listen_addr = Some("nowhere".to_string());
    match listen.listening_address() {
        Err(LdkServiceInitError::InvalidListeningAddress { address }) => {
            assert_eq!(address, "nowhere")
        }
        other => panic!("{:?}", other),
    }
    assert!(matches!(
        config().listening_address(),
        Ok(Some(NodeAddress::TcpIpV4 { addr: [0, 0, 0, 0], port: 9735 }))
    ));
}

#[test]
fn signers_over_nostr_need_their_settings() {
    let mut cfg = config();
    assert!(matches!(cfg.signer(), Ok(SignerTransport::Embedded)));
    cfg.signer_transport = "nostr".to_string();
    assert!(matches!(cfg.signer(), Err(LdkServiceInitError::InvalidConfig(_))));
    cfg.signer_relay = Some("wss://r".to_string());
    cfg.signer_nsec = Some("n".to_string());
    cfg.signer_pubkey = Some("p".to_string());
    match cfg.signer() {
        Ok(SignerTransport::Nostr { relay, nsec, signer_pubkey }) => {
            assert_eq!((relay.as_str(), nsec.as_str(), signer_pubkey.as_str()), ("wss://r", "n", "p"))
        }
        other => panic!("{:?}", other),
    }
    assert_eq!(config().plan().unwrap().network, Network::Regtest);
}

#[test]
fn errors_have_their_texts() {
    let text = |e: LdkServiceError| e.to_string();
    let m = || "m".to_string();
    assert_eq!(text(LdkServiceError::SyncFailed(m())), "ldk wallet sync failed: m");
    assert_eq!(
        text(LdkServiceError::AddressGenerationFailed(m())),
        "ldk address generation failed: m"
    );
    assert_eq!(
        text(LdkServiceError::BalanceOverflow { sats: 5 }),
        "balance conversion overflow for sats=5"
    );
    assert_eq!(text(LdkServiceError::InvalidInvoice(m())), "invalid invoice: m");
    assert_eq!(text(LdkServiceError::InvalidInvoiceRequest(m())), "invalid invoice request: m");
    assert_eq!(text(LdkServiceError::InvalidPubkey(m())), "invalid pubkey: m");
    assert_eq!(text(LdkServiceError::InvalidAmount(7)), "invalid amount: 7");
    assert_eq!(text(LdkServiceError::ChannelFailed(m())), "channel operation failed: m");
    assert_eq!(text(LdkServiceError::PeerFailed(m())), "peer operation failed: m");
    assert_eq!(text(LdkServiceError::PaymentFailed(m())), "payment failed: m");
    assert_eq!(text(LdkServiceError::PaymentNotFound(m())), "payment not found: m");
    assert_eq!(text(LdkServiceError::InvalidAddress(m())), "invalid address: m");
    assert_eq!(text(LdkServiceError::OfferFailed(m())), "offer operation failed: m");
    assert_eq!(text(LdkServiceError::StopFailed(m())), "ldk node stop failed: m");
}

#[test]
fn node_failures_are_told_apart() {
    let node = service();
    assert!(node.sync_wallets(Ok(())).is_ok());
    assert!(matches!(
        node.sync_wallets(Err("x".to_string())),
        Err(LdkServiceError::SyncFailed(m)) if m == "x"
    ));
    assert!(matches!(node.new_onchain_address(Ok("a".to_string())), Ok(a) if a == "a"));
    assert!(matches!(
        node.new_onchain_address(Err("x".to_string())),
        Err(LdkServiceError::AddressGenerationFailed(_))
    ));
    assert!(node.stop(Ok(())).is_ok());
    assert!(matches!(node.stop(Err("x".to_string())), Err(LdkServiceError::StopFailed(_))));
    assert_eq!(node.node_id(), G);
    assert_eq!(node.status(9).latest_best_block_height, 9);
}

#[test]
fn balances_add_up_or_overflow() {
    let node = service();
    let b = node.get_balance(3, 4).unwrap();
    assert_eq!((b.total_msat, b.lightning_msat, b.onchain_msat), (7_000, 4_000, 3_000));
    assert_eq!(node.get_balance_msat(3, 4).unwrap(), 7_000);
    let big = u64::MAX / 1000;
    assert!(matches!(
        node.get_balance(big, big),
        Err(LdkServiceError::BalanceOverflow { sats }) if sats == 2 * big
    ));
    assert!(matches!(
        node.get_balance(1, u64::MAX),
        Err(LdkServiceError::BalanceOverflow { sats: u64::MAX })
    ));
}

fn payment(status: PaymentStatus, direction: PaymentDirection, at: u64) -> PaymentDetails {
    PaymentDetails {
        id: [at as u8; 32],
        kind: PaymentKind::Bolt11 { hash: [1; 32], preimage: Some([2; 32]) },
        amount_msat: Some(1),
        fee_paid_msat: None,
        direction,
        status,
        latest_update_timestamp: at,
    }
}

fn everything() -> PaymentFilter {
    PaymentFilter { from: None, until: None, unpaid: None, direction: None, payment_method: None }
}

#[test]
fn payments_are_listed_newest_first_in_pages() {
    let payments: Vec<PaymentDetails> = [10, 30, 20, 40]
        .iter()
        .map(|t| payment(PaymentStatus::Succeeded, PaymentDirection::Inbound, *t))
        .collect();
    let times = |f: &PaymentFilter, limit, offset| -> Vec<u64> {
        filter_payments(&payments, f, limit, offset)
            .iter()
            .map(|p| p.latest_update_timestamp)
            .collect()
    };
    assert_eq!(times(&everything(), None, None), vec![40, 30, 20, 10]);
    assert_eq!(times(&everything(), Some(2), Some(1)), vec![30, 20]);
    let mut window = everything();
    window.from = Some(20);
    window.until = Some(30);
    assert_eq!(times(&window, None, None), vec![30, 20]);
    let mut out = everything();
    out.direction = Some(PaymentDirection::Outbound);
    assert!(times(&out, None, None).is_empty());
}

#[test]
fn payments_are_waited_for() {
    let look = |status: PaymentStatus, elapsed: u128| {
        let p = payment(status, PaymentDirection::Outbound, 5);
        wait_for_outbound_payment(&vec![p], &[5; 32], elapsed)
    };
    assert!(matches!(
        look(PaymentStatus::Succeeded, 0),
        PaymentWait::Over(Ok(p)) if p.preimage == "02".repeat(32)
    ));
    assert!(matches!(
        look(PaymentStatus::Failed, 0),
        PaymentWait::Over(Err(LdkServiceError::PaymentFailed(_)))
    ));
    assert!(matches!(look(PaymentStatus::Pending, 0), PaymentWait::Wait));
    assert!(matches!(
        look(PaymentStatus::Pending, 60_000_000_001),
        PaymentWait::Over(Err(LdkServiceError::PaymentFailed(_)))
    ));
}

fn channel(ready: bool) -> ChannelDetails {
    ChannelDetails {
        channel_id: "c".to_string(),
        user_channel_id: 1,
        counterparty: id_of(TWO_G),
        short_channel_id: None,
        funding_txo: None,
        is_channel_ready: ready,
        is_usable: ready,
        is_announced: false,
        outbound_capacity_msat: 0,
        inbound_capacity_msat: 0,
        channel_value_sats: 1,
        forwarding_fee_base_msat: 0,
        forwarding_fee_proportional_millionths: 0,
        inbound_htlc_minimum_msat: 0,
        inbound_htlc_maximum_msat: None,
    }
}

#[test]
fn channels_with_a_peer_are_found() {
    let node = service();
    let waiting = vec![channel(false)];
    assert!(node.has_channel_with(&waiting, TWO_G));
    assert!(!node.has_ready_channel_with(&waiting, TWO_G));
    assert!(node.has_ready_channel_with(&vec![channel(true)], TWO_G));
    assert!(!node.has_channel_with(&waiting, G));
    assert!(!node.has_channel_with(&waiting, "nonsense"));
    let peer = PeerDetails {
        node_id: id_of(TWO_G),
        address: "1.2.3.4:5".to_string(),
        is_connected: true,
    };
    let peers = node.list_peers(&vec![peer], &vec![channel(true), channel(false)]);
    assert_eq!(peers[0].pubkey, TWO_G);
    assert_eq!(peers[0].num_channels, 2);
    assert!(peers[0].connected);
}

#[test]
fn addresses_of_peers_are_read() {
    let node = service();
    let address = |text: &str| match node.connect_peer(TWO_G, text) {
        Ok(NodeCall::ConnectPeer { address, .. }) => address,
        other => panic!("{:?}", other),
    };
    assert!(matches!(
        address("1.2.3.4:5"),
        NodeAddress::TcpIpV4 { addr: [1, 2, 3, 4], port: 5 }
    ));
    let mut loopback = [0u8; 16];
    loopback[15] = 1;
    assert!(matches!(
        address("[::1]:5"),
        NodeAddress::TcpIpV6 { addr, port: 5 } if addr == loopback
    ));
    assert!(matches!(
        address("example.com:5"),
        NodeAddress::Hostname { hostname, port: 5 } if hostname == "example.com"
    ));
}

#[test]
fn payment_uris_are_read() {
    let uri = read_uri("BITCOIN:bc1qw508d6qejxtdg4y5r3zarvary0c5xw7kv8f3t4?amount=0.5").unwrap();
    assert_eq!(uri.amount_sat, Some(50_000_000));
    assert_eq!(uri.address, Some("bc1qw508d6qejxtdg4y5r3zarvary0c5xw7kv8f3t4".to_string()));
    assert!(uri.lightning.is_empty());
    assert!(uri.offers.is_empty());
    assert_eq!(read_uri("litecoin:x").unwrap_err(), "invalid scheme");
    assert_eq!(read_uri("bitcoin").unwrap_err(), "uri is too short");
}

#[test]
fn keys_of_payment_uris_may_be_in_any_script() {
    let with = |param: &str| {
        read_uri(&format!("bitcoin:bc1qw508d6qejxtdg4y5r3zarvary0c5xw7kv8f3t4?{}", param))
    };
    for param in ["\u{e9}=1", "\u{e9}\u{e9}=1", "abcd\u{e9}=1", "a\u{20ac}b=1", "\u{1f600}x=1"] {
        assert!(with(param).unwrap().address.is_some(), "{}", param);
    }
    for param in ["abc\u{e9}=1", "\u{20ac}\u{20ac}=1", "amount=1&ab\u{20ac}=1"] {
        assert_eq!(with(param).unwrap_err(), "malformed parameter", "{}", param);
    }
    assert_eq!(with("abc\u{e9}").unwrap_err(), "malformed parameter: abc\u{e9}");
    assert_eq!(read_uri("bitcoin\u{e9}:x?abc\u{e9}=1").unwrap_err(), "invalid scheme");
    assert_eq!(read_uri("b\u{e9}tcoin:x?abc\u{e9}=1").unwrap_err(), "invalid scheme");
    assert_eq!(read_uri("  \u{e9}  ").unwrap_err(), "uri is too short");
}

#[test]
fn the_first_fault_of_a_payment_uri_is_told() {
    let address = "bc1qw508d6qejxtdg4y5r3zarvary0c5xw7kv8f3t4";
    let told = |text: String| read_uri(&text).unwrap_err();
    for bad_key in ["abc\u{e9}=1", "\u{20ac}\u{20ac}=1&amount=0"] {
        assert_eq!(told(format!("bitcoin:nowhere?{}", bad_key)), "invalid bitcoin address: nowhere");
        assert_eq!(
            told(format!(" Bitcoin:{} ?{}", address, bad_key)),
            format!("invalid bitcoin address: {} ", address)
        );
        for (params, fault) in [
            ("amount=0", "amount must not be zero"),
            ("&amount", "malformed parameter: amount"),
            ("amount=1&label=x&amount=1", "duplicate parameter: amount"),
            ("req-x=1", "unsupported required parameter: x"),
            ("label=x ", "malformed parameter"),
            ("pay=1&&label=x", "malformed parameter"),
        ] {
            assert_eq!(told(format!("bitcoin:{}?{}&{}", address, params, bad_key)), fault);
        }
        assert_eq!(told(format!("bitcoin:?{}", bad_key)), "malformed parameter");
        assert_eq!(told(format!("bitcoin:?label=x&{}&amount=0", bad_key)), "malformed parameter");
    }
}

fn policy(base: u32, enabled: bool) -> Option<ChannelPolicy> {
    Some(ChannelPolicy {
        base_msat: base,
        proportional_millionths: 1_000,
        htlc_minimum_msat: 1,
        htlc_maximum_msat: 1_000_000,
        cltv_expiry_delta: 10,
        enabled,
        last_update: 0,
    })
}

fn edge(scid: u64, a: u8, b: u8, base: u32, enabled: bool) -> Option<GraphChannel> {
    let end = |n: u8| if n == 0 { id_of(G) } else if n == 9 { id_of(TWO_G) } else { NodeId { bytes: [n; 33] } };
    Some(GraphChannel {
        scid,
        node_one: end(a),
        node_two: end(b),
        capacity_sats: Some(1_000),
        one_to_two: policy(base, enabled),
        two_to_one: policy(base, enabled),
    })
}

#[test]
fn routes_keep_to_the_bounds_of_the_channels() {
    let node = service();
    let open = vec![edge(1, 0, 9, 1, true)];
    let routes = node.find_routes(&open, TWO_G, 100_000, 3).unwrap();
    assert_eq!(routes.len(), 1);
    assert_eq!(routes[0].hops.len(), 1);
    assert_eq!(routes[0].total_fee, 101);
    assert_eq!(routes[0].total_time_lock, 10);
    assert_eq!(routes[0].hops[0].fee, 101);
    let disabled = vec![edge(1, 0, 9, 1, false)];
    assert_eq!(node.find_routes(&disabled, TWO_G, 100_000, 3).unwrap().len(), 1);
    assert!(node.find_routes(&open, TWO_G, 2_000_000, 3).unwrap().is_empty());
    assert!(node.find_routes(&open, "nobody", 100_000, 3).unwrap().is_empty());
    assert!(node.find_routes(&open, TWO_G, 100_000, 0).unwrap().is_empty());
}

#[test]
fn the_first_route_is_the_cheapest() {
    let node = service();
    let channels = vec![
        edge(1, 0, 9, 5_000, true),
        edge(2, 0, 5, 1, true),
        edge(3, 5, 9, 1, true),
    ];
    let routes = node.find_routes(&channels, TWO_G, 1_000, 2).unwrap();
    assert_eq!(routes[0].hops.len(), 2);
    assert_eq!(routes[0].hops[0].short_channel_id, "0x0x2");
    assert_eq!(routes[0].hops[1].short_channel_id, "0x0x3");
    assert_eq!(routes[0].total_fee, 4);
}

#[test]
fn the_cheapest_route_is_first_in_a_wide_network() {
    let node = service();
    let mut channels = vec![edge(100, 0, 9, 5_000, true)];
    for n in 20..40 {
        channels.push(edge(100 + n as u64, 0, n, 0, true));
        channels.push(edge(200 + n as u64, n, 9, 4_000, true));
    }
    let stops = [0, 11, 12, 13, 14, 15, 9];
    for i in 0..6 {
        channels.push(edge(i as u64 + 1, stops[i], stops[i + 1], 1, true));
    }
    let routes = node.find_routes(&channels, TWO_G, 1_000, 1).unwrap();
    assert_eq!(routes.len(), 1);
    let ids: Vec<&str> = routes[0].hops.iter().map(|h| h.short_channel_id.as_str()).collect();
    assert_eq!(ids, vec!["0x0x1", "0x0x2", "0x0x3", "0x0x4", "0x0x5", "0x0x6"]);
    assert_eq!(routes[0].total_fee, 12);
}

#[test]
fn no_route_is_found_twice() {
    let node = service();
    let channels = vec![
        edge(1, 0, 9, 5, true),
        edge(2, 0, 5, 1, true),
        edge(3, 5, 9, 1, true),
        edge(4, 5, 9, 1, true),
        edge(5, 0, 9, 5, true),
        edge(6, 5, 5, 0, true),
    ];
    let routes = node.find_routes(&channels, TWO_G, 1_000, 10).unwrap();
    assert_eq!(routes.len(), 4);
    let ids: Vec<Vec<String>> = routes
        .iter()
        .map(|r| r.hops.iter().map(|h| h.short_channel_id.to_string()).collect())
        .collect();
    for i in 0..ids.len() {
        for j in i + 1..ids.len() {
            assert_ne!(ids[i], ids[j]);
        }
    }
}

#[test]
fn a_search_gives_up_only_on_fees_that_do_not_fit() {
    let node = service();
    let mut wide = edge(1, 0, 9, 1, true).unwrap();
    for way in [&mut wide.one_to_two, &mut wide.two_to_one] {
        if let Some(p) = way {
            p.htlc_maximum_msat = u64::MAX;
            p.proportional_millionths = 2;
        }
    }
    let most = u64::MAX / 2;
    assert_eq!(node.find_routes(&vec![Some(wide)], TWO_G, most, 1).unwrap().len(), 1);
    assert!(node.find_routes(&vec![Some(wide)], TWO_G, most + 1, 1).is_none());
}
