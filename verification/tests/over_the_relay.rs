use ldk_controller::crypto::{
    decrypt_content, encrypt_content, get_encryption_scheme, public_key_text,
};
use ldk_controller::lightning::graph::NodeId;
use ldk_controller::lightning::ldk_service::Network;
use ldk_controller::lightning::node::ChannelDetails;
use ldk_controller::lightning::service::LdkService;
use ldk_controller::nip47::{ErrorCode, Method};
use ldk_controller::relay::event::EventDraft;
use ldk_controller::relay::exchange::{
    handle_control_request, handle_nwc_request, reply_to_control_request, reply_to_wallet_request,
    Intake,
};
use ldk_controller::relay::grants::{parse_grant_target, GrantOutcome, Grants};
use ldk_controller::relay::info::{
    control_info_event, greeting, incoming, wallet_info_event, Incoming,
};
use ldk_controller::relay::notices::{
    handle_ldk_event, CloseReason, NncNotification, NodeEvent, Notice, Notification,
};
use ldk_controller::relay::publish::{publish_nnc_notification, publish_nwc_notification};
use ldk_controller::settings::ServiceSettings;
use ldk_controller::state::forwarding_store::{
    get_history, record_forward, ForwardingEntry, ForwardingStore,
};
use ldk_controller::state::subscription_store::{subscribe, SubscriptionStore};
use ldk_controller::{
    clear_usage_profiles, get_usage_profile, set_owners, set_relay_pubkey, UsageProfile,
    CONTROL_INFO_KIND, CONTROL_REQUEST_KIND, CONTROL_RESPONSE_KIND,
};

const SERVICE: [u8; 32] = [1; 32];
const CLIENT: [u8; 32] = [2; 32];

fn bytes_of(text: &str) -> [u8; 32] {
    let mut bytes = [0u8; 32];
    for (i, b) in bytes.iter_mut().enumerate() {
        *b = u8::from_str_radix(&text[2 * i..2 * i + 2], 16).unwrap();
    }
    bytes
}

fn public(secret: &[u8; 32]) -> [u8; 32] {
    bytes_of(&public_key_text(secret).unwrap())
}

fn tag(parts: &[&str]) -> Vec<String> {
    parts.iter().map(|p| p.to_string()).collect()
}

fn value(event: &EventDraft, name: &str) -> Option<String> {
    event.tags.iter().find(|t| t[0] == name).map(|t| t[1].clone())
}

#[test]
fn public_keys_belong_to_secret_keys() {
    let mut one = [0u8; 32];
    one[31] = 1;
    assert_eq!(
        public_key_text(&one).unwrap(),
        "79be667ef9dcbbac55a06295ce870b07029bfcdb2dce28d959f2815b16f81798"
    );
    assert!(public_key_text(&[0; 32]).is_err());
}

#[test]
fn each_side_reads_what_the_other_wrote() {
    for scheme in ["nip04", "nip44_v2"] {
        let message =
            encrypt_content(&CLIENT, &public(&SERVICE), "secret \u{e9}", scheme).unwrap();
        assert_ne!(message, "secret \u{e9}");
        assert_eq!(
            decrypt_content(&SERVICE, &public(&CLIENT), &message, scheme).unwrap(),
            "secret \u{e9}"
        );
        assert_eq!(
            decrypt_content(&CLIENT, &public(&SERVICE), &message, scheme).unwrap(),
            "secret \u{e9}"
        );
        assert!(decrypt_content(&SERVICE, &public(&CLIENT), "garbage", scheme).is_err());
    }
    assert_eq!(
        encrypt_content(&CLIENT, &public(&SERVICE), "x", "rot13").unwrap_err(),
        "unsupported encryption: rot13"
    );
    assert_eq!(
        decrypt_content(&CLIENT, &public(&SERVICE), "x", "rot13").unwrap_err(),
        "unsupported encryption: rot13"
    );
    assert!(encrypt_content(&CLIENT, &public(&SERVICE), "", "nip44_v2").is_err());
}

#[test]
fn the_scheme_is_the_first_that_is_named() {
    assert_eq!(get_encryption_scheme(&Vec::new()), "nip04");
    let tags = vec![
        tag(&["p", "encryption"]),
        tag(&["encryption"]),
        tag(&["encryption", "nip44_v2"]),
        tag(&["encryption", "nip04"]),
    ];
    assert_eq!(get_encryption_scheme(&tags), "nip44_v2");
}

#[test]
fn test_nwc_nip04_backward_compat() {
    let request = "{\"method\":\"get_info\",\"params\":{}}";
    let sealed = encrypt_content(&CLIENT, &public(&SERVICE), request, "nip04").unwrap();
    let tags = vec![tag(&["p", &public_key_text(&SERVICE).unwrap()])];
    let (payload, scheme) = match handle_nwc_request(&SERVICE, &public(&CLIENT), &tags, &sealed) {
        Intake::CarryOut { payload, scheme } => (payload, scheme),
        other => panic!("{:?}", other),
    };
    assert_eq!(payload, request);
    let event =
        reply_to_wallet_request(&SERVICE, &public(&CLIENT), "e1", "the answer", &scheme).unwrap();
    assert_eq!(event.kind, 23195);
    assert!(
        value(&event, "encryption").is_none(),
        "Response should NOT have encryption tag for legacy NIP-04 request"
    );
    assert_eq!(value(&event, "p"), Some(public_key_text(&CLIENT).unwrap()));
    assert_eq!(value(&event, "e"), Some("e1".to_string()));
    assert_eq!(
        decrypt_content(&CLIENT, &public(&SERVICE), &event.content, "nip04").unwrap(),
        "the answer"
    );
}

#[test]
fn answers_use_the_scheme_of_their_requests() {
    let sealed = encrypt_content(&CLIENT, &public(&SERVICE), "{}", "nip44_v2").unwrap();
    let tags = vec![tag(&["encryption", "nip44_v2"])];
    let scheme = match handle_control_request(&SERVICE, &public(&CLIENT), &tags, &sealed) {
        Intake::CarryOut { payload, scheme } => {
            assert_eq!(payload, "{}");
            scheme
        }
        other => panic!("{:?}", other),
    };
    let event =
        reply_to_control_request(&SERVICE, &public(&CLIENT), "e2", "done", &scheme).unwrap();
    assert_eq!(event.kind, CONTROL_RESPONSE_KIND);
    assert_eq!(get_encryption_scheme(&event.tags), "nip44_v2");
    assert_eq!(
        decrypt_content(&CLIENT, &public(&SERVICE), &event.content, "nip44_v2").unwrap(),
        "done"
    );
}

#[test]
fn unsupported_schemes_are_answered_under_the_older_one() {
    let tags = vec![tag(&["encryption", "rot13"])];
    match handle_nwc_request(&SERVICE, &public(&CLIENT), &tags, "x") {
        Intake::Answer { answer, scheme } => {
            let e = answer.error.unwrap();
            assert!(matches!(answer.result_type, Method::GetInfo));
            assert_eq!(e.code, ErrorCode::UnsupportedEncryption);
            assert_eq!(e.message, "unsupported encryption: rot13");
            assert_eq!(scheme, "nip04");
        }
        other => panic!("{:?}", other),
    }
    match handle_control_request(&SERVICE, &public(&CLIENT), &tags, "x") {
        Intake::Answer { answer, scheme } => {
            let e = answer.error.unwrap();
            assert_eq!(answer.result_type, "unknown");
            assert_eq!(e.code, "UNSUPPORTED_ENCRYPTION");
            assert_eq!(e.message, "unsupported encryption: rot13");
            assert_eq!(scheme, "nip04");
        }
        other => panic!("{:?}", other),
    }
}

#[test]
fn unreadable_requests_are_dropped() {
    assert!(matches!(
        handle_nwc_request(&SERVICE, &public(&CLIENT), &Vec::new(), "not encrypted"),
        Intake::Drop { .. }
    ));
}

#[test]
fn test_info_events_have_encryption_tag() {
    let nwc = wallet_info_event();
    assert_eq!(nwc.kind, 13194);
    assert_eq!(value(&nwc, "encryption").unwrap(), "nip44_v2 nip04");
    let notifications = value(&nwc, "notifications").unwrap();
    assert_eq!(notifications, "payment_received payment_sent hold_invoice_accepted");
    assert!(nwc.content.starts_with("get_info get_balance pay_invoice "));
    let nnc = control_info_event();
    assert_eq!(nnc.kind, CONTROL_INFO_KIND);
    assert_eq!(value(&nnc, "encryption").unwrap(), "nip44_v2 nip04");
    let notifications = value(&nnc, "notifications").unwrap();
    assert!(notifications.contains("channel_opened"));
    assert!(notifications.contains("channel_closed"));
    assert!(nnc.content.ends_with(" estimate_route_fee query_routes"));
}

#[test]
fn events_are_told_apart_by_their_kinds() {
    assert_eq!(incoming(23194), Incoming::WalletRequest);
    assert_eq!(incoming(CONTROL_REQUEST_KIND), Incoming::ControlRequest);
    assert_eq!(incoming(30078), Incoming::Grant);
    assert_eq!(incoming(1), Incoming::Another);
}

#[test]
fn hello_is_answered_in_whatever_case() {
    assert_eq!(greeting("well HeLLo there"), Some("Hi"));
    assert_eq!(greeting("hello"), Some("Hi"));
    assert_eq!(greeting("hell o"), None);
    assert_eq!(greeting("hell"), None);
}

#[test]
fn grants_name_the_node_and_the_client() {
    let node = public_key_text(&SERVICE).unwrap();
    let tags = |v: &str| vec![tag(&["d"]), tag(&["d", v])];
    let mine = Some(public(&SERVICE));
    assert_eq!(
        parse_grant_target(&tags(&format!("{}:alice:x", node)), &mine),
        Some("alice:x".to_string())
    );
    assert_eq!(parse_grant_target(&tags("other:alice"), &mine), None);
    assert_eq!(parse_grant_target(&tags("other:alice"), &None), Some("alice".to_string()));
    assert_eq!(parse_grant_target(&tags("other:"), &None), None);
    assert_eq!(parse_grant_target(&tags("other"), &None), None);
    assert_eq!(parse_grant_target(&Vec::new(), &None), None);
}

fn granted(n: u8) -> Option<UsageProfile<u8>> {
    Some(UsageProfile { quota: Some(n), methods: None, control: None })
}

#[test]
fn the_newest_grant_counts_in_whatever_order() {
    let tags = vec![tag(&["d", "n:alice"])];
    for order in [[0, 1, 2], [0, 2, 1], [1, 0, 2], [1, 2, 0], [2, 0, 1], [2, 1, 0]] {
        let events = [(5, "aa", 1), (7, "aa", 2), (7, "bb", 3)];
        let mut grants: Grants<u8> = Grants::new();
        for i in order {
            let (created_at, id, n) = events[i];
            grants.apply_grant(&tags, &None, created_at, id, granted(n));
        }
        assert_eq!(get_usage_profile(&grants, "alice").unwrap().quota, Some(3));
        assert_eq!(
            grants.apply_grant(&tags, &None, 7, "bb", granted(4)),
            GrantOutcome::Outdated
        );
    }
}

#[test]
fn unreadable_grants_outdate_older_ones() {
    let tags = vec![tag(&["d", "n:alice"])];
    let mut grants: Grants<u8> = Grants::new();
    assert_eq!(grants.apply_grant(&tags, &None, 1, "a", granted(1)), GrantOutcome::Applied);
    assert_eq!(grants.apply_grant(&tags, &None, 3, "a", None), GrantOutcome::Unreadable);
    assert_eq!(grants.apply_grant(&tags, &None, 2, "a", granted(2)), GrantOutcome::Outdated);
    assert_eq!(
        grants.apply_grant(&Vec::new(), &None, 9, "a", granted(2)),
        GrantOutcome::NoTarget
    );
    assert_eq!(get_usage_profile(&grants, "alice").unwrap().quota, Some(1));
    clear_usage_profiles(&mut grants);
    assert!(get_usage_profile(&grants, "alice").is_none());
    assert!(!grants.should_apply_grant_event("alice", 2, "z"));
    assert!(grants.should_apply_grant_event("alice", 3, "b"));
    grants.upsert_usage_profile("bob", granted(9).unwrap());
    assert_eq!(get_usage_profile(&grants, "bob").unwrap().quota, Some(9));
}

#[test]
fn the_relay_key_is_set_once_and_owners_again() {
    let mut settings = ServiceSettings::new();
    set_relay_pubkey(&mut settings, [1; 32]);
    set_relay_pubkey(&mut settings, [2; 32]);
    assert_eq!(*settings.relay_pubkey(), Some([1; 32]));
    set_owners(&mut settings, vec!["a".to_string()]);
    set_owners(&mut settings, vec!["b".to_string()]);
    assert_eq!(*settings.owners(), vec!["b".to_string()]);
    settings.set_node_alias(None);
    settings.set_node_alias(Some("late".to_string()));
    assert_eq!(settings.node_alias(), None);
}

#[test]
fn subscribers_get_wallet_notifications_under_both_schemes() {
    let mut store = SubscriptionStore::new();
    let client = public_key_text(&CLIENT).unwrap();
    subscribe(&mut store, &client, &["payment_sent".to_string()]);
    let told = publish_nwc_notification(&SERVICE, &store, "payment_sent", "paid");
    assert!(told.error.is_none());
    assert_eq!(told.events.len(), 2);
    for (event, kind, scheme) in
        [(&told.events[0], 23196, "nip04"), (&told.events[1], 23197, "nip44_v2")]
    {
        assert_eq!(event.kind, kind);
        assert_eq!(value(event, "p"), Some(client.clone()));
        assert_eq!(
            decrypt_content(&CLIENT, &public(&SERVICE), &event.content, scheme).unwrap(),
            "paid"
        );
    }
    assert!(publish_nwc_notification(&SERVICE, &store, "payment_received", "x").events.is_empty());
}

#[test]
fn subscribers_get_node_notifications_under_the_newer_scheme() {
    let mut store = SubscriptionStore::new();
    let client = public_key_text(&CLIENT).unwrap();
    subscribe(&mut store, &client.to_uppercase(), &["channel_opened".to_string()]);
    let told = publish_nnc_notification(&SERVICE, &store, "channel_opened", "open");
    assert_eq!(told.events.len(), 1);
    assert_eq!(told.events[0].kind, 23200);
    assert_eq!(value(&told.events[0], "p"), Some(client));
    assert_eq!(
        decrypt_content(&CLIENT, &public(&SERVICE), &told.events[0].content, "nip44_v2").unwrap(),
        "open"
    );
    subscribe(&mut store, "not a key", &["channel_closed".to_string()]);
    let told = publish_nnc_notification(&SERVICE, &store, "channel_closed", "gone");
    assert!(told.events.is_empty());
    assert!(told.error.is_some());
}

fn service() -> LdkService {
    LdkService::from_node(NodeId { bytes: [2; 33] }, Network::Regtest)
}

fn notice(event: NodeEvent, channels: Vec<ChannelDetails>) -> Notice {
    handle_ldk_event(&service(), &mut ForwardingStore::new(), &event, &channels, 1_000)
}

#[test]
fn payments_are_told_to_the_wallet() {
    match notice(NodeEvent::PaymentReceived { payment_hash: [5; 32], amount_msat: 9 }, Vec::new())
    {
        Notice::Wallet(n) => {
            assert_eq!(n.kind(), "payment_received");
            match n {
                Notification::PaymentReceived(p) => {
                    assert_eq!(p.payment_hash, "05".repeat(32));
                    assert_eq!(p.amount, 9);
                    assert_eq!(p.settled_at, 1_000);
                }
                other => panic!("{:?}", other),
            }
        }
        other => panic!("{:?}", other),
    }
    match notice(
        NodeEvent::PaymentSuccessful { payment_hash: [5; 32], fee_paid_msat: Some(4) },
        Vec::new(),
    ) {
        Notice::Wallet(n) => {
            assert_eq!(n.kind(), "payment_sent");
            match n {
                Notification::PaymentSent(p) => {
                    assert_eq!(p.amount, 0);
                    assert_eq!(p.fees_paid, 4);
                }
                other => panic!("{:?}", other),
            }
        }
        other => panic!("{:?}", other),
    }
    match notice(
        NodeEvent::PaymentClaimable {
            payment_hash: [5; 32],
            claimable_amount_msat: 8,
            claim_deadline: Some(700),
        },
        Vec::new(),
    ) {
        Notice::Wallet(n) => {
            assert_eq!(n.kind(), "hold_invoice_accepted");
            match n {
                Notification::HoldInvoiceAccepted(h) => {
                    assert_eq!(h.amount, 8);
                    assert_eq!(h.settle_deadline, 700);
                }
                other => panic!("{:?}", other),
            }
        }
        other => panic!("{:?}", other),
    }
}

fn channel(id: &str, sats: u64) -> ChannelDetails {
    ChannelDetails {
        channel_id: id.to_string(),
        user_channel_id: 1,
        counterparty: NodeId { bytes: [3; 33] },
        short_channel_id: Some(1),
        funding_txo: None,
        is_channel_ready: true,
        is_usable: true,
        is_announced: true,
        outbound_capacity_msat: 60,
        inbound_capacity_msat: 40,
        channel_value_sats: sats,
        forwarding_fee_base_msat: 0,
        forwarding_fee_proportional_millionths: 0,
        inbound_htlc_minimum_msat: 0,
        inbound_htlc_maximum_msat: None,
    }
}

#[test]
fn channels_are_told_with_what_is_known_of_them() {
    let ready = || NodeEvent::ChannelReady {
        channel_id: "c2".to_string(),
        counterparty_node_id: Some(NodeId { bytes: [3; 33] }),
        funding_txid: Some("tx".to_string()),
    };
    match notice(ready(), vec![channel("c1", 1), channel("c2", 2)]) {
        Notice::Node(NncNotification::ChannelOpened(o)) => {
            assert_eq!(o.id, "c2");
            assert_eq!(o.capacity, 2_000);
            assert_eq!(o.short_channel_id, Some("0x0x1".to_string()));
            assert_eq!(o.peer_pubkey, "03".repeat(33));
            assert_eq!(o.funding_txid, "tx");
            assert!(!o.is_private);
        }
        other => panic!("{:?}", other),
    }
    match notice(ready(), Vec::new()) {
        Notice::Node(NncNotification::ChannelOpened(o)) => {
            assert_eq!(o.capacity, 0);
            assert_eq!(o.short_channel_id, None);
        }
        other => panic!("{:?}", other),
    }
    assert!(matches!(notice(ready(), vec![channel("c1", u64::MAX)]), Notice::Halt));
    for (reason, told) in [
        (Some(CloseReason::CounterpartyForceClosed), "force"),
        (Some(CloseReason::HolderForceClosed), "force"),
        (Some(CloseReason::LegacyCooperativeClosure), "cooperative"),
        (Some(CloseReason::LocallyInitiatedCooperativeClosure), "cooperative"),
        (Some(CloseReason::CounterpartyInitiatedCooperativeClosure), "cooperative"),
        (Some(CloseReason::Another), "unknown"),
        (None, "unknown"),
    ] {
        let event = NodeEvent::ChannelClosed {
            channel_id: "c2".to_string(),
            counterparty_node_id: None,
            reason,
        };
        match notice(event, Vec::new()) {
            Notice::Node(n) => {
                assert_eq!(n.kind(), "channel_closed");
                match n {
                    NncNotification::ChannelClosed(c) => {
                        assert_eq!(c.close_type, told);
                        assert_eq!(c.peer_pubkey, "");
                    }
                    other => panic!("{:?}", other),
                }
            }
            other => panic!("{:?}", other),
        }
    }
}

#[test]
fn a_recorded_forward_ends_the_history() {
    let mut forwards = ForwardingStore::new();
    for settled_at in [30, 10, 20] {
        let before: Vec<u64> = get_history(&forwards, None, None, usize::MAX, 0)
            .iter()
            .map(|f| f.settled_at)
            .collect();
        record_forward(
            &mut forwards,
            ForwardingEntry {
                incoming_channel_id: "a".to_string(),
                outgoing_channel_id: "b".to_string(),
                incoming_amount: 3,
                outgoing_amount: 2,
                fee_earned: 1,
                settled_at,
            },
        );
        let mut after: Vec<u64> = get_history(&forwards, None, None, usize::MAX, 0)
            .iter()
            .map(|f| f.settled_at)
            .collect();
        assert_eq!(after.pop(), Some(settled_at));
        assert_eq!(after, before);
    }
}

#[test]
fn forwards_are_recorded_and_told_to_nobody() {
    let mut forwards = ForwardingStore::new();
    let mut forward = |fee: Option<u64>, out: Option<u64>| {
        let event = NodeEvent::PaymentForwarded {
            prev_channel_id: "a".to_string(),
            next_channel_id: "b".to_string(),
            total_fee_earned_msat: fee,
            outbound_amount_forwarded_msat: out,
        };
        let told = handle_ldk_event(&service(), &mut forwards, &event, &Vec::new(), 50);
        assert!(matches!(told, Notice::Nobody));
        get_history(&forwards, None, None, 100, 0).pop().unwrap()
    };
    let entry = forward(Some(3), Some(100));
    assert_eq!(entry.incoming_amount, 103);
    assert_eq!(entry.outgoing_amount, 100);
    assert_eq!(entry.fee_earned, 3);
    assert_eq!(entry.settled_at, 50);
    assert_eq!(forward(None, None).incoming_amount, 0);
    assert_eq!(forward(Some(3), Some(u64::MAX)).incoming_amount, u64::MAX);
    assert!(matches!(notice(NodeEvent::Another, Vec::new()), Notice::Nobody));
}
