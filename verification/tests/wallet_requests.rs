use ldk_controller::access::UsageProfile;
use ldk_controller::lightning::graph::NodeId;
use ldk_controller::lightning::ldk_service::{LdkInvoiceResult, Network};
use ldk_controller::lightning::node::{NewOffer, NodeCall, NodeReply};
use ldk_controller::lightning::payments::{
    PaymentDetails, PaymentDirection, PaymentKind, PaymentMethod, PaymentStatus,
};
use ldk_controller::lightning::service::LdkService;
use ldk_controller::nip47::{
    CancelHoldInvoiceRequest, DisableOfferRequest, ErrorCode, ListAddressesRequest,
    ListInvoicesRequest, ListOffersRequest, ListTransactionsRequest, LookupAddressRequest,
    LookupInvoiceRequest, LookupOfferRequest, MakeHoldInvoiceRequest, MakeInvoiceRequest,
    MakeOfferRequest, Method, NIP47Error, PayBip321Request, PayInvoiceRequest, PayKeysendRequest,
    PayOfferRequest, PayOnchainRequest, Request, RequestParams, ResponseResult,
    SettleHoldInvoiceRequest, SubscribeNotificationsRequest, TransactionState, TransactionType,
};
use ldk_controller::state::address_store::{record_transaction, register_address};
use ldk_controller::state::offer_store::{find_by_offer_id, insert_offer, record_payment};
use ldk_controller::state::stores::Stores;
use ldk_controller::state::subscription_store::is_subscribed;
use ldk_controller::wallet::execute::{WalletContext, WalletStep};
use ldk_controller::wallet::info::{allowed_methods_for, supported_methods};
use ldk_controller::wallet::proceed::resume_request;
use ldk_controller::wallet::request::{
    break_off_request, finish_request, process_nwc_request, ForcedFailures, RequestStart,
};
use ldk_controller::{
    clear_execute_failures_for_testing, payment_details_to_lookup_response,
    set_execute_failure_for_testing, MethodAccessRule,
};

const CLIENT: &str = "c1";
const INVOICE: &str = "lnbc1pvjluezsp5zyg3zyg3zyg3zyg3zyg3zyg3zyg3zyg3zyg3zyg3zyg3zyg3zygspp5qqqsyqcyq5rqwzqfqqqsyqcyq5rqwzqfqqqsyqcyq5rqwzqfqypqdpl2pkx2ctnv5sxxmmwwd5kgetjypeh2ursdae8g6twvus8g6rfwvs8qun0dfjkxaq9qrsgq357wnc5r2ueh7ck6q93dj32dlqnls087fxdwk8qakdyafkq3yap9us6v52vjjsrvywa6rt52cm9r9zqt8r2t7mlcwspyetp5h2tztugp9lfyql";
const OFFER: &str =
    "lno1pgx9getnwss8vetrw3hhyuckyypwa3eyt44h6txtxquqh7lz5djge4afgfjn7k4rgrkuag0jsd5xvxg";
const OTHER_INVOICE: &str = "lnbc20m1pvjluezsp5zyg3zyg3zyg3zyg3zyg3zyg3zyg3zyg3zyg3zyg3zyg3zyg3zygspp5qqqsyqcyq5rqwzqfqqqsyqcyq5rqwzqfqqqsyqcyq5rqwzqfqypqhp58yjmdan79s6qqdhdzgynm4zwqd5d7xmw5fk98klysy043l2ahrqs9qrsgq7ea976txfraylvgzuxs8kgcw23ezlrszfnh8r6qtfpr6cxga50aj6txm9rxrydzd06dfeawfk6swupvz4erwnyutnjq7x39ymw6j38gp7ynn44";
const OTHER_OFFER: &str = "lno1zcss9mk8y3wkklfvevcrszlmu23kfrxh49px20665dqwmn4p72pksese";
const G: &str = "0279be667ef9dcbbac55a06295ce870b07029bfcdb2dce28d959f2815b16f81798";

fn service() -> LdkService {
    LdkService::from_node(NodeId { bytes: [2; 33] }, Network::Regtest)
}

fn context(service: Option<&LdkService>) -> WalletContext<'_> {
    WalletContext {
        service,
        alias: None,
        own_pubkey: "aa".to_string(),
        methods: supported_methods(),
        now: 1_700_000_000,
    }
}

fn request(method: Method, params: RequestParams) -> Request {
    Request { method, params }
}

fn start(request: &Request, service: Option<&LdkService>, stores: &mut Stores) -> RequestStart {
    process_nwc_request(request, CLIENT, &context(service), &ForcedFailures::new(), stores)
}

fn step(request: &Request, service: Option<&LdkService>, stores: &mut Stores) -> WalletStep {
    match start(request, service, stores) {
        RequestStart::Execute(step) => step,
        other => panic!("not carried out: {:?}", other),
    }
}

fn result_of(step: WalletStep) -> ResponseResult {
    match step {
        WalletStep::Executed(Ok(result)) => result,
        other => panic!("no result: {:?}", other),
    }
}

fn error_of(step: WalletStep) -> NIP47Error {
    match step {
        WalletStep::Executed(Err(e)) => e,
        other => panic!("no error: {:?}", other),
    }
}

fn refusal(request: &Request) -> NIP47Error {
    match start(request, None, &mut Stores::new()) {
        RequestStart::Answer(response) => response.error.unwrap(),
        other => panic!("not refused: {:?}", other),
    }
}

fn payment(kind: PaymentKind, status: PaymentStatus, updated: u64) -> PaymentDetails {
    PaymentDetails {
        id: [7; 32],
        kind,
        amount_msat: Some(100_000),
        fee_paid_msat: Some(21),
        direction: PaymentDirection::Outbound,
        status,
        latest_update_timestamp: updated,
    }
}

fn bolt11(n: u8, status: PaymentStatus, updated: u64) -> PaymentDetails {
    payment(PaymentKind::Bolt11 { hash: [n; 32], preimage: Some([n + 1; 32]) }, status, updated)
}

fn keysend(n: u8, updated: u64) -> PaymentDetails {
    payment(
        PaymentKind::Spontaneous { hash: [n; 32], preimage: None },
        PaymentStatus::Succeeded,
        updated,
    )
}

fn onchain(updated: u64) -> PaymentDetails {
    payment(PaymentKind::Onchain, PaymentStatus::Succeeded, updated)
}

#[test]
fn test_nwc_list_offers_returns_seeded_offers() {
    let mut stores = Stores::new();
    insert_offer(
        &mut stores.offers,
        "lno1offer_a".to_string(),
        "coffee".to_string(),
        5_000,
        [1; 32],
    );
    insert_offer(
        &mut stores.offers,
        "lno1offer_b".to_string(),
        "donation".to_string(),
        0,
        [2; 32],
    );
    let wanted = request(
        Method::ListOffers,
        RequestParams::ListOffers(ListOffersRequest {
            active_only: None,
            limit: None,
            offset: None,
        }),
    );
    let list = match result_of(step(&wanted, None, &mut stores)) {
        ResponseResult::ListOffers(list) => list,
        other => panic!("{:?}", other),
    };
    assert_eq!(list.len(), 2, "Expected 2 offers");
    let mut offers: Vec<String> = list.iter().map(|o| o.offer.clone()).collect();
    offers.sort();
    assert_eq!(offers, vec!["lno1offer_a", "lno1offer_b"]);
    let coffee = list.iter().find(|o| o.offer == "lno1offer_a").expect("offer_a not found");
    assert_eq!(coffee.description.as_deref(), Some("coffee"));
    assert_eq!(coffee.amount, Some(5_000));
    assert!(coffee.active);
    assert_eq!(coffee.num_payments_received, 0);
    assert_eq!(coffee.total_received, 0);
}

#[test]
fn test_nwc_list_addresses_returns_seeded_addresses() {
    let mut stores = Stores::new();
    register_address(&mut stores.addresses, "bcrt1qaddr_one".to_string());
    record_transaction(
        &mut stores.addresses,
        "bcrt1qaddr_one",
        "tx1".to_string(),
        50_000,
        1700000000,
    );
    record_transaction(
        &mut stores.addresses,
        "bcrt1qaddr_one",
        "tx2".to_string(),
        30_000,
        1700000100,
    );
    register_address(&mut stores.addresses, "bcrt1qaddr_two".to_string());
    record_transaction(
        &mut stores.addresses,
        "bcrt1qaddr_two",
        "tx3".to_string(),
        100_000,
        1700000200,
    );
    let wanted = request(
        Method::ListAddresses,
        RequestParams::ListAddresses(ListAddressesRequest { limit: None, offset: None }),
    );
    let list = match result_of(step(&wanted, None, &mut stores)) {
        ResponseResult::ListAddresses(list) => list,
        other => panic!("{:?}", other),
    };
    assert_eq!(list.len(), 2, "Expected 2 addresses");
    let one = list.iter().find(|a| a.address == "bcrt1qaddr_one").expect("addr_one not found");
    assert_eq!(one.total_received_sats, 80_000, "addr_one should have 50k + 30k = 80k sats");
    let two = list.iter().find(|a| a.address == "bcrt1qaddr_two").expect("addr_two not found");
    assert_eq!(two.total_received_sats, 100_000, "addr_two should have 100k sats");
}

#[test]
fn test_nwc_disable_offer_then_list_active() {
    let mut stores = Stores::new();
    insert_offer(
        &mut stores.offers,
        "lno1to_disable".to_string(),
        "temp offer".to_string(),
        1_000,
        [3; 32],
    );
    let disable = request(
        Method::DisableOffer,
        RequestParams::DisableOffer(DisableOfferRequest { offer: "lno1to_disable".to_string() }),
    );
    assert!(matches!(
        result_of(step(&disable, None, &mut stores)),
        ResponseResult::DisableOffer
    ));
    let list = request(
        Method::ListOffers,
        RequestParams::ListOffers(ListOffersRequest {
            active_only: Some(true),
            limit: None,
            offset: None,
        }),
    );
    match result_of(step(&list, None, &mut stores)) {
        ResponseResult::ListOffers(offers) => assert!(
            offers.is_empty(),
            "Expected no active offers after disabling, got {}",
            offers.len()
        ),
        other => panic!("{:?}", other),
    }
}

#[test]
fn test_nwc_subscribe_notifications_roundtrip() {
    let mut stores = Stores::new();
    let wanted = request(
        Method::SubscribeNotifications,
        RequestParams::SubscribeNotifications(SubscribeNotificationsRequest {
            types: vec!["payment_received".to_string()],
        }),
    );
    match start(&wanted, None, &mut stores) {
        RequestStart::Answer(response) => {
            assert!(response.error.is_none());
            assert!(matches!(response.result, Some(ResponseResult::SubscribeNotifications)));
        }
        other => panic!("{:?}", other),
    }
    assert!(is_subscribed(&stores.subscriptions, CLIENT, "payment_received"));
}

#[test]
fn unknown_notifications_are_refused_and_none_unsubscribes() {
    let mut stores = Stores::new();
    let subscribe = |types: Vec<String>, stores: &mut Stores| {
        let wanted = request(
            Method::SubscribeNotifications,
            RequestParams::SubscribeNotifications(SubscribeNotificationsRequest { types }),
        );
        match start(&wanted, None, stores) {
            RequestStart::Answer(response) => response,
            other => panic!("{:?}", other),
        }
    };
    subscribe(vec!["payment_sent".to_string()], &mut stores);
    let refused = subscribe(
        vec!["payment_received".to_string(), "channel_opened".to_string()],
        &mut stores,
    );
    assert_eq!(refused.error.unwrap().message, "unknown notification type: channel_opened");
    assert!(is_subscribed(&stores.subscriptions, CLIENT, "payment_sent"));
    subscribe(Vec::new(), &mut stores);
    assert!(!is_subscribed(&stores.subscriptions, CLIENT, "payment_sent"));
}

#[test]
fn pay_invoice_invalid_invoice_returns_error() {
    let node = service();
    let wanted = request(
        Method::PayInvoice,
        RequestParams::PayInvoice(PayInvoiceRequest {
            invoice: "not-a-bolt11-invoice".to_string(),
            amount: None,
        }),
    );
    let err = error_of(step(&wanted, Some(&node), &mut Stores::new()));
    assert_eq!(err.code, ErrorCode::PaymentFailed);
    assert!(
        err.message.starts_with("ldk pay_invoice failed: invalid invoice:"),
        "unexpected error message: {}",
        err.message
    );
}

#[test]
fn get_balance_returns_split_lightning_and_onchain() {
    let node = service();
    let mut stores = Stores::new();
    let wanted = request(Method::GetBalance, RequestParams::GetBalance);
    assert!(matches!(
        step(&wanted, Some(&node), &mut stores),
        WalletStep::Ask(NodeCall::SyncWallets)
    ));
    let ctx = context(Some(&node));
    let next = resume_request(
        &wanted.params,
        &ctx,
        &NodeCall::SyncWallets,
        NodeReply::Done(Ok(())),
        &mut stores,
    );
    assert!(matches!(next, WalletStep::Ask(NodeCall::ListBalances)));
    let end = resume_request(
        &wanted.params,
        &ctx,
        &NodeCall::ListBalances,
        NodeReply::Balances { spendable_onchain_sats: 40, total_lightning_sats: 2 },
        &mut stores,
    );
    match result_of(end) {
        ResponseResult::GetBalance(b) => {
            assert_eq!(b.balance, 42_000);
            assert_eq!(b.lightning_balance, Some(2_000));
            assert_eq!(b.onchain_balance, Some(40_000));
        }
        other => panic!("{:?}", other),
    }
    let failed = resume_request(
        &wanted.params,
        &ctx,
        &NodeCall::SyncWallets,
        NodeReply::Done(Err("no chain".to_string())),
        &mut stores,
    );
    let e = error_of(failed);
    assert_eq!(e.code, ErrorCode::Other);
    assert_eq!(e.message, "ldk sync failed: ldk wallet sync failed: no chain");
    let too_much = resume_request(
        &wanted.params,
        &ctx,
        &NodeCall::ListBalances,
        NodeReply::Balances { spendable_onchain_sats: u64::MAX, total_lightning_sats: 2 },
        &mut stores,
    );
    assert_eq!(
        error_of(too_much).message,
        "ldk balance failed: balance conversion overflow for sats=18446744073709551615"
    );
}

#[test]
fn lookup_invoice_bolt11_has_payment_method() {
    let details = bolt11(5, PaymentStatus::Succeeded, 9);
    let response = payment_details_to_lookup_response(&details);
    assert_eq!(
        response.payment_method,
        Some(PaymentMethod::Bolt11),
        "bolt11 payment should have payment_method=Bolt11"
    );
    assert_eq!(response.payment_hash, "05".repeat(32));
    assert_eq!(response.preimage, Some("06".repeat(32)));
    assert_eq!(response.state, Some(TransactionState::Settled));
    assert_eq!(response.transaction_type, Some(TransactionType::Outgoing));
    assert_eq!(response.settled_at, Some(9));
    assert_eq!(response.amount, 100_000);
    assert_eq!(response.fees_paid, 21);
}

#[test]
fn lookup_invoice_keysend_has_payment_method() {
    let response = payment_details_to_lookup_response(&keysend(5, 9));
    assert_eq!(
        response.payment_method,
        Some(PaymentMethod::Keysend),
        "keysend payment should have payment_method=Keysend"
    );
}

fn transactions(method: Option<PaymentMethod>) -> Vec<Option<PaymentMethod>> {
    let node = service();
    let mut stores = Stores::new();
    let wanted = request(
        Method::ListTransactions,
        RequestParams::ListTransactions(ListTransactionsRequest {
            from: None,
            until: None,
            limit: None,
            offset: None,
            unpaid: None,
            transaction_type: None,
            payment_method: method,
        }),
    );
    assert!(matches!(
        step(&wanted, Some(&node), &mut stores),
        WalletStep::Ask(NodeCall::ListPayments)
    ));
    let payments = vec![bolt11(1, PaymentStatus::Succeeded, 10), onchain(15), keysend(3, 20)];
    let end = resume_request(
        &wanted.params,
        &context(Some(&node)),
        &NodeCall::ListPayments,
        NodeReply::Payments(payments),
        &mut stores,
    );
    match result_of(end) {
        ResponseResult::ListTransactions(list) => {
            list.iter().map(|t| t.payment_method).collect()
        }
        other => panic!("{:?}", other),
    }
}

#[test]
fn list_transactions_all_entries_have_payment_method() {
    let listed = transactions(None);
    assert!(listed.iter().all(|method| method.is_some()));
    assert_eq!(
        listed,
        vec![
            Some(PaymentMethod::Keysend),
            Some(PaymentMethod::Onchain),
            Some(PaymentMethod::Bolt11),
        ]
    );
}

#[test]
fn list_transactions_filter_bolt11_excludes_keysend() {
    assert_eq!(transactions(Some(PaymentMethod::Bolt11)), vec![Some(PaymentMethod::Bolt11)]);
}

#[test]
fn list_transactions_filter_bolt12_returns_empty() {
    assert!(transactions(Some(PaymentMethod::Bolt12)).is_empty());
}

#[test]
fn list_transactions_filter_onchain_leaves_the_rest_out() {
    assert_eq!(transactions(Some(PaymentMethod::Onchain)), vec![Some(PaymentMethod::Onchain)]);
    assert_eq!(
        payment_details_to_lookup_response(&onchain(9)).payment_method,
        Some(PaymentMethod::Onchain)
    );
}

#[test]
fn list_invoices_after_payment() {
    let node = service();
    let mut stores = Stores::new();
    let list = |state: Option<String>, stores: &mut Stores| {
        let wanted = request(
            Method::ListInvoices,
            RequestParams::ListInvoices(ListInvoicesRequest {
                from: None,
                until: None,
                limit: None,
                offset: None,
                state,
            }),
        );
        assert!(matches!(
            step(&wanted, Some(&node), stores),
            WalletStep::Ask(NodeCall::ListPayments)
        ));
        let mut settled = bolt11(1, PaymentStatus::Succeeded, 10);
        settled.direction = PaymentDirection::Inbound;
        let mut waiting = bolt11(4, PaymentStatus::Pending, 20);
        waiting.direction = PaymentDirection::Inbound;
        let end = resume_request(
            &wanted.params,
            &context(Some(&node)),
            &NodeCall::ListPayments,
            NodeReply::Payments(vec![settled, waiting]),
            stores,
        );
        match result_of(end) {
            ResponseResult::ListInvoices(list) => list,
            other => panic!("{:?}", other),
        }
    };
    let all = list(None, &mut stores);
    let settled: Vec<_> =
        all.iter().filter(|inv| inv.state == "settled" && inv.amount == 100_000).collect();
    assert_eq!(
        settled.len(),
        1,
        "expected exactly one settled invoice for 100_000 msat, got {}",
        settled.len()
    );
    assert!(!settled[0].payment_hash.is_empty(), "payment_hash should be present");
    assert!(settled[0].preimage.is_some(), "preimage should be present for settled invoice");
    assert!(settled[0].settled_at.is_some(), "settled_at should be present");
    let only = list(Some("settled".to_string()), &mut stores);
    assert_eq!(only.len(), 1);
    assert!(
        only.iter().all(|inv| inv.state == "settled"),
        "all invoices should be settled when filtering by state=settled"
    );
}

#[test]
fn a_keysend_is_sent_watched_and_told() {
    let node = service();
    let mut stores = Stores::new();
    let wanted = request(
        Method::PayKeysend,
        RequestParams::PayKeysend(PayKeysendRequest { pubkey: G.to_string(), amount: 150_000 }),
    );
    let call = match step(&wanted, Some(&node), &mut stores) {
        WalletStep::Ask(call) => call,
        other => panic!("{:?}", other),
    };
    match &call {
        NodeCall::SendKeysend { amount_msat, node_id } => {
            assert_eq!(*amount_msat, 150_000);
            assert_eq!(node_id.to_string(), G);
        }
        other => panic!("{:?}", other),
    }
    let ctx = context(Some(&node));
    let watch = match resume_request(
        &wanted.params,
        &ctx,
        &call,
        NodeReply::Sent(Ok([7; 32])),
        &mut stores,
    ) {
        WalletStep::Ask(call) => call,
        other => panic!("{:?}", other),
    };
    assert!(matches!(watch, NodeCall::WatchPayment { id, pause_ms: 0 } if id == [7; 32]));
    let mut pending = keysend(7, 1);
    pending.status = PaymentStatus::Pending;
    let again = resume_request(
        &wanted.params,
        &ctx,
        &watch,
        NodeReply::Watched { payments: vec![pending], elapsed_nanos: 1 },
        &mut stores,
    );
    assert!(matches!(again, WalletStep::Ask(NodeCall::WatchPayment { pause_ms: 100, .. })));
    let mut paid = keysend(7, 2);
    paid.kind = PaymentKind::Spontaneous { hash: [7; 32], preimage: Some([9; 32]) };
    let end = resume_request(
        &wanted.params,
        &ctx,
        &watch,
        NodeReply::Watched { payments: vec![paid], elapsed_nanos: 2 },
        &mut stores,
    );
    match result_of(end) {
        ResponseResult::PayKeysend(r) => {
            assert_eq!(r.preimage, "09".repeat(32));
            assert_eq!(r.fees_paid, Some(21));
        }
        other => panic!("{:?}", other),
    }
    let late = resume_request(
        &wanted.params,
        &ctx,
        &watch,
        NodeReply::Watched { payments: Vec::new(), elapsed_nanos: 61_000_000_000 },
        &mut stores,
    );
    assert_eq!(error_of(late).code, ErrorCode::PaymentFailed);
}

#[test]
fn a_new_address_and_a_new_offer_are_remembered() {
    let node = service();
    let mut stores = Stores::new();
    let ctx = context(Some(&node));
    let address = request(Method::MakeNewAddress, RequestParams::MakeNewAddress);
    let call = match step(&address, Some(&node), &mut stores) {
        WalletStep::Ask(call) => call,
        other => panic!("{:?}", other),
    };
    let end = resume_request(
        &address.params,
        &ctx,
        &call,
        NodeReply::Text(Ok("bcrt1qnew".to_string())),
        &mut stores,
    );
    assert!(matches!(
        result_of(end),
        ResponseResult::MakeNewAddress { address } if address == "bcrt1qnew"
    ));
    let lookup = request(
        Method::LookupAddress,
        RequestParams::LookupAddress(LookupAddressRequest { address: "bcrt1qnew".to_string() }),
    );
    match result_of(step(&lookup, Some(&node), &mut stores)) {
        ResponseResult::LookupAddress(r) => {
            assert_eq!(r.address, "bcrt1qnew");
            assert_eq!(r.total_received, 0);
            assert!(r.transactions.is_empty());
        }
        other => panic!("{:?}", other),
    }

    let offer = request(
        Method::MakeOffer,
        RequestParams::MakeOffer(MakeOfferRequest {
            amount: 7_000,
            description: "tea".to_string(),
            expiry: None,
        }),
    );
    let call = match step(&offer, Some(&node), &mut stores) {
        WalletStep::Ask(call) => call,
        other => panic!("{:?}", other),
    };
    let end = resume_request(
        &offer.params,
        &ctx,
        &call,
        NodeReply::Offer(Ok(NewOffer { offer: "lno1new".to_string(), id: [4; 32] })),
        &mut stores,
    );
    assert!(matches!(result_of(end), ResponseResult::MakeOffer(r) if r.offer == "lno1new"));
    record_payment(&mut stores.offers, "lno1new", 7_000);
    let lookup = request(
        Method::LookupOffer,
        RequestParams::LookupOffer(LookupOfferRequest { offer: "lno1new".to_string() }),
    );
    match result_of(step(&lookup, Some(&node), &mut stores)) {
        ResponseResult::LookupOffer(r) => {
            assert_eq!(r.description, Some("tea".to_string()));
            assert_eq!(r.amount, Some(7_000));
            assert_eq!(r.num_payments_received, 1);
            assert_eq!(r.total_received, 7_000);
            assert!(r.active);
        }
        other => panic!("{:?}", other),
    }
}

#[test]
fn records_that_are_missing_are_not_found() {
    let mut stores = Stores::new();
    let offer = request(
        Method::LookupOffer,
        RequestParams::LookupOffer(LookupOfferRequest { offer: "lno1nope".to_string() }),
    );
    assert_eq!(error_of(step(&offer, None, &mut stores)).code, ErrorCode::NotFound);
    let address = request(
        Method::LookupAddress,
        RequestParams::LookupAddress(LookupAddressRequest { address: "bcrt1qnope".to_string() }),
    );
    assert_eq!(error_of(step(&address, None, &mut stores)).code, ErrorCode::NotFound);
}

#[test]
fn an_invoice_is_asked_for_and_told() {
    let node = service();
    let mut stores = Stores::new();
    let wanted = request(
        Method::MakeInvoice,
        RequestParams::MakeInvoice(MakeInvoiceRequest {
            amount: 1_000,
            description: Some("tea".to_string()),
            description_hash: None,
            expiry: Some(60),
        }),
    );
    let call = match step(&wanted, Some(&node), &mut stores) {
        WalletStep::Ask(call) => call,
        other => panic!("{:?}", other),
    };
    assert!(matches!(
        &call,
        NodeCall::ReceiveBolt11 { amount_msat: 1_000, description, expiry_secs: 60 }
            if description == "tea"
    ));
    let end = resume_request(
        &wanted.params,
        &context(Some(&node)),
        &call,
        NodeReply::Invoice(Ok(LdkInvoiceResult {
            invoice: "lnbcrt1".to_string(),
            payment_hash: Some("ab".to_string()),
            amount_msat: Some(1_000),
            expires_at: Some(99),
        })),
        &mut stores,
    );
    match result_of(end) {
        ResponseResult::MakeInvoice(r) => {
            assert_eq!(r.invoice, "lnbcrt1");
            assert_eq!(r.amount, Some(1_000));
            assert_eq!(r.created_at, Some(1_700_000_000));
            assert_eq!(r.expires_at, Some(99));
        }
        other => panic!("{:?}", other),
    }
    let long = request(
        Method::MakeInvoice,
        RequestParams::MakeInvoice(MakeInvoiceRequest {
            amount: 1_000,
            description: Some("x".repeat(640)),
            description_hash: None,
            expiry: None,
        }),
    );
    let e = error_of(step(&long, Some(&node), &mut stores));
    assert!(e.message.starts_with("ldk make_invoice failed: invalid invoice request:"), "{}", e.message);
}

#[test]
fn a_lookup_by_hash_asks_for_the_payment() {
    let node = service();
    let mut stores = Stores::new();
    let wanted = request(
        Method::LookupInvoice,
        RequestParams::LookupInvoice(LookupInvoiceRequest {
            payment_hash: Some("0a".repeat(32)),
            invoice: None,
        }),
    );
    let call = match step(&wanted, Some(&node), &mut stores) {
        WalletStep::Ask(call) => call,
        other => panic!("{:?}", other),
    };
    assert!(matches!(call, NodeCall::FindPayment { id } if id == [10; 32]));
    let missing = resume_request(
        &wanted.params,
        &context(Some(&node)),
        &call,
        NodeReply::Payment(None),
        &mut stores,
    );
    assert_eq!(error_of(missing).code, ErrorCode::NotFound);
    let found = resume_request(
        &wanted.params,
        &context(Some(&node)),
        &call,
        NodeReply::Payment(Some(bolt11(10, PaymentStatus::Failed, 0))),
        &mut stores,
    );
    match result_of(found) {
        ResponseResult::LookupInvoice(r) => {
            assert_eq!(r.state, Some(TransactionState::Failed));
            assert_eq!(r.created_at, None);
            assert_eq!(r.settled_at, None);
        }
        other => panic!("{:?}", other),
    }
}

#[test]
fn payment_uris_are_paid_by_the_first_way_they_name() {
    let node = LdkService::from_node(NodeId { bytes: [2; 33] }, Network::Bitcoin);
    let mut stores = Stores::new();
    let pay = |uri: &str, stores: &mut Stores| {
        let wanted = request(
            Method::PayBip321,
            RequestParams::PayBip321(PayBip321Request { uri: uri.to_string() }),
        );
        step(&wanted, Some(&node), stores)
    };
    match pay(
        "bitcoin:bc1qw508d6qejxtdg4y5r3zarvary0c5xw7kv8f3t4?amount=0.001",
        &mut stores,
    ) {
        WalletStep::Ask(NodeCall::SendOnchain { address, amount_sats }) => {
            assert_eq!(address, "bc1qw508d6qejxtdg4y5r3zarvary0c5xw7kv8f3t4");
            assert_eq!(amount_sats, 100_000);
        }
        other => panic!("{:?}", other),
    }
    let without = error_of(pay(
        "bitcoin:bc1qw508d6qejxtdg4y5r3zarvary0c5xw7kv8f3t4",
        &mut stores,
    ));
    assert_eq!(without.message, "on-chain payment requires amount");
    let both = format!(
        "bitcoin:bc1qw508d6qejxtdg4y5r3zarvary0c5xw7kv8f3t4?amount=0.001&lightning={}",
        INVOICE
    );
    match pay(&both, &mut stores) {
        WalletStep::Ask(NodeCall::SendBolt11 { invoice, amount_msat }) => {
            assert_eq!(invoice, INVOICE);
            assert_eq!(amount_msat, Some(100_000_000));
        }
        other => panic!("{:?}", other),
    }
    let way = |first: &str, second: &str, stores: &mut Stores| {
        pay(&format!("bitcoin:?{}&{}", first, second), stores)
    };
    let invoice = format!("lightning={}", INVOICE);
    let other_invoice = format!("lightning={}", OTHER_INVOICE);
    let offer = format!("lno={}", OFFER);
    let other_offer = format!("lno={}", OTHER_OFFER);
    for (first, second, wanted) in [
        (&invoice, &other_invoice, INVOICE),
        (&other_invoice, &invoice, OTHER_INVOICE),
        (&offer, &invoice, INVOICE),
    ] {
        match way(first, second, &mut stores) {
            WalletStep::Ask(NodeCall::SendBolt11 { invoice, amount_msat }) => {
                assert_eq!(invoice, wanted);
                assert_eq!(amount_msat, None);
            }
            other => panic!("{:?}", other),
        }
    }
    for (first, second, wanted) in
        [(&offer, &other_offer, OFFER), (&other_offer, &offer, OTHER_OFFER)]
    {
        match way(first, second, &mut stores) {
            WalletStep::Ask(NodeCall::SendOffer { offer, .. }) => assert_eq!(offer, wanted),
            other => panic!("{:?}", other),
        }
    }
}

#[test]
fn payment_uris_that_cannot_be_read_are_refused() {
    let refuse = |uri: &str| {
        refusal(&request(
            Method::PayBip321,
            RequestParams::PayBip321(PayBip321Request { uri: uri.to_string() }),
        ))
        .message
    };
    assert!(refuse("mailto:someone").starts_with("invalid BIP-321 URI: "));
    assert!(refuse("bitcoin:?lightning=lnbogus").starts_with("invalid BIP-321 URI: "));
    assert!(refuse("b\u{e9}tcoin:x").starts_with("invalid BIP-321 URI: "));
}

#[test]
fn invoices_and_offers_that_can_be_read_are_paid() {
    let node = LdkService::from_node(NodeId { bytes: [2; 33] }, Network::Bitcoin);
    let mut stores = Stores::new();
    let pay = request(
        Method::PayInvoice,
        RequestParams::PayInvoice(PayInvoiceRequest {
            invoice: INVOICE.to_string(),
            amount: Some(5_000),
        }),
    );
    assert!(matches!(
        step(&pay, Some(&node), &mut stores),
        WalletStep::Ask(NodeCall::SendBolt11 { invoice, amount_msat: Some(5_000) })
            if invoice == INVOICE
    ));
    let lookup = request(
        Method::LookupInvoice,
        RequestParams::LookupInvoice(LookupInvoiceRequest {
            payment_hash: None,
            invoice: Some(INVOICE.to_string()),
        }),
    );
    let hash: [u8; 32] = [
        0, 1, 2, 3, 4, 5, 6, 7, 8, 9, 0, 1, 2, 3, 4, 5, 6, 7, 8, 9, 0, 1, 2, 3, 4, 5, 6, 7, 8, 9, 1,
        2,
    ];
    assert!(matches!(
        step(&lookup, Some(&node), &mut stores),
        WalletStep::Ask(NodeCall::FindPayment { id }) if id == hash
    ));
    let offer = request(
        Method::PayOffer,
        RequestParams::PayOffer(PayOfferRequest {
            offer: OFFER.to_string(),
            amount: None,
            payer_note: Some("hi".to_string()),
        }),
    );
    assert!(matches!(
        step(&offer, Some(&node), &mut stores),
        WalletStep::Ask(NodeCall::SendOffer { offer, payer_note })
            if offer == OFFER && payer_note == Some("hi".to_string())
    ));
    let bogus = request(
        Method::PayOffer,
        RequestParams::PayOffer(PayOfferRequest {
            offer: "lno1bogus".to_string(),
            amount: None,
            payer_note: None,
        }),
    );
    let e = error_of(step(&bogus, Some(&node), &mut stores));
    assert!(e.message.starts_with("ldk pay_offer failed: offer operation failed:"), "{}", e.message);
    let nobody = request(
        Method::PayKeysend,
        RequestParams::PayKeysend(PayKeysendRequest { pubkey: "nobody".to_string(), amount: 1 }),
    );
    let e = error_of(step(&nobody, Some(&node), &mut stores));
    assert!(e.message.starts_with("ldk pay_keysend failed: invalid pubkey:"), "{}", e.message);
    let elsewhere = request(
        Method::PayOnchain,
        RequestParams::PayOnchain(PayOnchainRequest {
            address: "bcrt1qw508d6qejxtdg4y5r3zarvary0c5xw7kygt080".to_string(),
            amount: 1,
            feerate: None,
        }),
    );
    let e = error_of(step(&elsewhere, Some(&node), &mut stores));
    assert!(e.message.starts_with("ldk pay_onchain failed: invalid address:"), "{}", e.message);
}

#[test]
fn without_a_node_samples_and_errors_are_told() {
    let mut stores = Stores::new();
    let pay = request(
        Method::PayInvoice,
        RequestParams::PayInvoice(PayInvoiceRequest {
            invoice: "lnbc1".to_string(),
            amount: None,
        }),
    );
    assert!(matches!(
        result_of(step(&pay, None, &mut stores)),
        ResponseResult::PayInvoice(r) if r.preimage == "00" && r.fees_paid == Some(0)
    ));
    let balance = request(Method::GetBalance, RequestParams::GetBalance);
    assert!(matches!(
        result_of(step(&balance, None, &mut stores)),
        ResponseResult::GetBalance(b) if b.balance == 0
    ));
    let offer = request(
        Method::PayOffer,
        RequestParams::PayOffer(PayOfferRequest {
            offer: "lno1".to_string(),
            amount: None,
            payer_note: None,
        }),
    );
    error_of(step(&offer, None, &mut stores));
    let info = request(Method::GetInfo, RequestParams::GetInfo);
    match result_of(step(&info, None, &mut stores)) {
        ResponseResult::GetInfo(r) => {
            assert_eq!(r.alias, Some("ldk-controller".to_string()));
            assert_eq!(r.pubkey, Some("aa".to_string()));
            assert_eq!(r.network, Some("regtest".to_string()));
            assert_eq!(r.block_height, Some(0));
        }
        other => panic!("{:?}", other),
    }
    let cancel = request(
        Method::CancelHoldInvoice,
        RequestParams::CancelHoldInvoice(CancelHoldInvoiceRequest {
            payment_hash: "ab".to_string(),
        }),
    );
    assert!(matches!(
        result_of(step(&cancel, None, &mut stores)),
        ResponseResult::CancelHoldInvoice
    ));
    let settle = request(
        Method::SettleHoldInvoice,
        RequestParams::SettleHoldInvoice(SettleHoldInvoiceRequest { preimage: "ab".to_string() }),
    );
    assert!(matches!(
        result_of(step(&settle, None, &mut stores)),
        ResponseResult::SettleHoldInvoice
    ));
    let hold = request(
        Method::MakeHoldInvoice,
        RequestParams::MakeHoldInvoice(MakeHoldInvoiceRequest {
            payment_hash: "ab".to_string(),
            amount: 1,
        }),
    );
    assert!(matches!(
        result_of(step(&hold, None, &mut stores)),
        ResponseResult::MakeHoldInvoice(_)
    ));
}

#[test]
fn with_a_node_its_height_and_key_are_told() {
    let node = service();
    let mut stores = Stores::new();
    let info = request(Method::GetInfo, RequestParams::GetInfo);
    assert!(matches!(step(&info, Some(&node), &mut stores), WalletStep::Ask(NodeCall::Status)));
    let end = resume_request(
        &info.params,
        &context(Some(&node)),
        &NodeCall::Status,
        NodeReply::Height(144),
        &mut stores,
    );
    match result_of(end) {
        ResponseResult::GetInfo(r) => {
            assert_eq!(r.pubkey, Some("02".repeat(33)));
            assert_eq!(r.block_height, Some(144));
            assert_eq!(
                r.notifications,
                vec!["payment_received", "payment_sent", "hold_invoice_accepted"]
            );
        }
        other => panic!("{:?}", other),
    }
}

#[test]
fn wrong_parameters_are_refused_before_anything_is_done() {
    let empty = request(
        Method::PayInvoice,
        RequestParams::PayInvoice(PayInvoiceRequest { invoice: " ".to_string(), amount: None }),
    );
    assert_eq!(refusal(&empty).code, ErrorCode::Other);
    let mixed = request(Method::PayInvoice, RequestParams::GetInfo);
    assert_eq!(refusal(&mixed).code, ErrorCode::Other);
    let nothing = request(
        Method::PayOnchain,
        RequestParams::PayOnchain(PayOnchainRequest {
            address: "bcrt1q".to_string(),
            amount: 0,
            feerate: None,
        }),
    );
    assert_eq!(refusal(&nothing).code, ErrorCode::Other);
}

#[test]
fn unknown_methods_are_not_implemented() {
    let unknown = request(Method::Unknown("fly".to_string()), RequestParams::Other);
    let e = refusal(&unknown);
    assert_eq!(e.code, ErrorCode::NotImplemented);
    assert_eq!(e.message, "fly not implemented yet");
}

#[test]
fn methods_can_be_made_to_fail() {
    let mut failures = ForcedFailures::new();
    let mut stores = Stores::new();
    let balance = request(Method::GetBalance, RequestParams::GetBalance);
    set_execute_failure_for_testing(&mut failures, Method::GetBalance, true);
    let e = match process_nwc_request(&balance, CLIENT, &context(None), &failures, &mut stores) {
        RequestStart::Execute(step) => error_of(step),
        other => panic!("{:?}", other),
    };
    assert_eq!(e.message, "forced execute failure for testing");
    clear_execute_failures_for_testing(&mut failures);
    assert!(matches!(
        process_nwc_request(&balance, CLIENT, &context(None), &failures, &mut stores),
        RequestStart::Execute(WalletStep::Executed(Ok(_)))
    ));
}

#[test]
fn failed_requests_are_refunded_and_others_are_not() {
    let done = finish_request(&Method::DisableOffer, Ok(ResponseResult::DisableOffer));
    assert!(!done.refund);
    assert!(done.response.error.is_none());
    let failed = finish_request(
        &Method::DisableOffer,
        Err(NIP47Error { code: ErrorCode::NotFound, message: "gone".to_string() }),
    );
    assert!(failed.refund);
    assert_eq!(failed.response.error.unwrap().message, "gone");
    let broken = break_off_request(&Method::GetInfo, "panic");
    assert!(broken.refund);
    assert_eq!(
        broken.response.error.unwrap().message,
        "internal execution task failed: panic"
    );
}

#[test]
fn clients_are_told_the_methods_that_they_may_call() {
    assert!(allowed_methods_for::<u8>(None).is_empty());
    let open: UsageProfile<u8> = UsageProfile { quota: None, methods: None, control: None };
    assert_eq!(allowed_methods_for(Some(&open)).len(), supported_methods().len());
    let rule = || MethodAccessRule { access_rate: None };
    let some: UsageProfile<u8> = UsageProfile {
        quota: None,
        methods: Some(vec![(Method::GetInfo, rule()), (Method::PayOffer, rule())]),
        control: None,
    };
    let names: Vec<String> =
        allowed_methods_for(Some(&some)).iter().map(|m| m.as_str().to_string()).collect();
    assert_eq!(names, vec!["get_info", "pay_offer"]);
    let none: UsageProfile<u8> =
        UsageProfile { quota: None, methods: Some(Vec::new()), control: None };
    assert!(allowed_methods_for(Some(&none)).is_empty());
    let all: UsageProfile<u8> = UsageProfile {
        quota: None,
        methods: Some(vec![(Method::Unknown("ALL".to_string()), rule())]),
        control: None,
    };
    assert_eq!(allowed_methods_for(Some(&all)).len(), supported_methods().len());
}

#[test]
fn offers_are_found_by_their_ids() {
    let mut stores = Stores::new();
    insert_offer(&mut stores.offers, "lno1a".to_string(), "a".to_string(), 1, [1; 32]);
    insert_offer(&mut stores.offers, "lno1b".to_string(), "b".to_string(), 2, [2; 32]);
    assert_eq!(find_by_offer_id(&stores.offers, &[2; 32]), Some("lno1b".to_string()));
    assert_eq!(find_by_offer_id(&stores.offers, &[3; 32]), None);
}
