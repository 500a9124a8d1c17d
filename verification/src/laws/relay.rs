//! What goes out to clients and comes in from them.

use vstd::prelude::*;

use crate::access::UsageProfile;
use crate::control::messages::ControlResponse;
#[allow(unused_imports)]
use crate::crypto::{
    decrypt_content, encrypt_content, get_encryption_scheme, key_parse, nip04_open, nip44_open,
    other_side, tag_views, tagged,
};
#[allow(unused_imports)]
use crate::laws::access::may_call;
#[allow(unused_imports)]
use crate::laws::service::is_first_with_id;
use crate::lightning::graph::NodeId;
#[allow(unused_imports)]
use crate::lightning::hex::hex_text;
use crate::lightning::node::ChannelDetails;
#[allow(unused_imports)]
use crate::lightning::reports::{channel_info, channel_infos};
#[allow(unused_imports)]
use crate::lightning::scid::scid_text;
#[allow(unused_imports)]
use crate::nip47::{lemma_names_differ, method_from_name, method_name_round_trip};
use crate::nip47::{ErrorCode, Method, Response, TransactionState, TransactionType};
use crate::relay::event::EventDraft;
#[allow(unused_imports)]
use crate::relay::exchange::{
    handle_control_request, handle_nwc_request, reply_to_control_request, reply_to_wallet_request,
};
use crate::relay::exchange::Intake;
#[allow(unused_imports)]
use crate::relay::grants::{after_grant, parse_grant_target, GrantsView};
use crate::relay::grants::Grant;
#[allow(unused_imports)]
use crate::relay::info::{
    control_info_event, encryption_schemes, greeting, incoming, says_hello, spaced,
    wallet_info_event,
};
use crate::relay::info::Incoming;
#[allow(unused_imports)]
use crate::relay::notices::{channel_named, forwards_after, notice_of};
use crate::relay::notices::{CloseReason, NncNotification, NodeEvent, Notice, Notification};
#[allow(unused_imports)]
use crate::relay::publish::{are_subscribers, publish_nnc_notification, publish_nwc_notification};
use crate::relay::publish::Publication;
#[allow(unused_imports)]
use crate::state::forwarding_store::ForwardingView;
use crate::state::subscription_store::SubscriptionStore;
#[allow(unused_imports)]
use crate::state::subscription_store::{get_subscribers, is_subscribed, subscribed};
#[allow(unused_imports)]
use crate::text::{lemma_first_index_behind, text_less, texts};
#[allow(unused_imports)]
use crate::views::views;
#[allow(unused_imports)]
use crate::wallet::info::{allowed_methods_for, supported_methods, told_methods_are_the_permitted_ones};

verus! {

/// Every method of the wallet goes by its own name, and is read from it.
pub proof fn wallet_methods_go_by_their_names(method: Method, name: &str)
    requires
        call_ensures(method_from_name, (name,), method),
    ensures
        method is GetInfo <==> name@ == "get_info"@,
        method is GetBalance <==> name@ == "get_balance"@,
        method is PayInvoice <==> name@ == "pay_invoice"@,
        method is PayKeysend <==> name@ == "pay_keysend"@,
        method is MakeInvoice <==> name@ == "make_invoice"@,
        method is LookupInvoice <==> name@ == "lookup_invoice"@,
        method is ListTransactions <==> name@ == "list_transactions"@,
        method is MakeHoldInvoice <==> name@ == "make_hold_invoice"@,
        method is CancelHoldInvoice <==> name@ == "cancel_hold_invoice"@,
        method is SettleHoldInvoice <==> name@ == "settle_hold_invoice"@,
        method is PayOnchain <==> name@ == "pay_onchain"@,
        method is MakeNewAddress <==> name@ == "make_new_address"@,
        method is PayOffer <==> name@ == "pay_offer"@,
        method is MakeOffer <==> name@ == "make_offer"@,
        method is LookupOffer <==> name@ == "lookup_offer"@,
        method is LookupAddress <==> name@ == "lookup_address"@,
        method is PayBip321 <==> name@ == "pay_bip321"@,
        method is SubscribeNotifications <==> name@ == "subscribe_notifications"@,
        method is ListOffers <==> name@ == "list_offers"@,
        method is DisableOffer <==> name@ == "disable_offer"@,
        method is ListAddresses <==> name@ == "list_addresses"@,
        method is ListInvoices <==> name@ == "list_invoices"@,
        method matches Method::Unknown(other) ==> other@ == name@,
{
    lemma_names_differ();
    method_name_round_trip(method@, name@);
}

/// A method is written by the name that it is read from.
pub proof fn methods_are_written_as_they_are_read(method: Method, name: &str, read: Method)
    requires
        call_ensures(Method::as_str, (&method,), name),
        call_ensures(method_from_name, (name,), read),
    ensures
        !(method is Unknown) ==> read@ == method@,
        method matches Method::Unknown(other) ==> name@ == other@,
{
    method_name_round_trip(method@, name@);
}

proof fn lemma_supported(m: Method<Seq<char>>)
    ensures
        crate::wallet::info::supported().contains(m) <==> !(m is Unknown),
{
    let all = crate::wallet::info::supported();
    assert(all[0] == Method::<Seq<char>>::GetInfo);
    assert(all[1] == Method::<Seq<char>>::GetBalance);
    assert(all[2] == Method::<Seq<char>>::PayInvoice);
    assert(all[3] == Method::<Seq<char>>::PayKeysend);
    assert(all[4] == Method::<Seq<char>>::MakeInvoice);
    assert(all[5] == Method::<Seq<char>>::LookupInvoice);
    assert(all[6] == Method::<Seq<char>>::ListTransactions);
    assert(all[7] == Method::<Seq<char>>::MakeHoldInvoice);
    assert(all[8] == Method::<Seq<char>>::CancelHoldInvoice);
    assert(all[9] == Method::<Seq<char>>::SettleHoldInvoice);
    assert(all[10] == Method::<Seq<char>>::PayOnchain);
    assert(all[11] == Method::<Seq<char>>::MakeNewAddress);
    assert(all[12] == Method::<Seq<char>>::PayOffer);
    assert(all[13] == Method::<Seq<char>>::MakeOffer);
    assert(all[14] == Method::<Seq<char>>::LookupOffer);
    assert(all[15] == Method::<Seq<char>>::LookupAddress);
    assert(all[16] == Method::<Seq<char>>::PayBip321);
    assert(all[17] == Method::<Seq<char>>::SubscribeNotifications);
    assert(all[18] == Method::<Seq<char>>::ListOffers);
    assert(all[19] == Method::<Seq<char>>::DisableOffer);
    assert(all[20] == Method::<Seq<char>>::ListAddresses);
    assert(all[21] == Method::<Seq<char>>::ListInvoices);
    if all.contains(m) {
        let i = choose|i: int| 0 <= i < all.len() && all[i] == m;
        assert(0 <= i < 22);
    }
}

/// The wallet supports every method of the protocol, and each is listed once.
pub proof fn every_method_is_supported(methods: Vec<Method>, m: Method<Seq<char>>)
    requires
        call_ensures(supported_methods, (), methods),
    ensures
        views(methods@).contains(m) <==> !(m is Unknown),
        methods@.len() == 22,
{
    assert(views(methods@).len() == methods@.len());
    lemma_supported(m);
}

/// A client is told of exactly those methods that it may call.
pub proof fn clients_are_told_what_they_may_call<R>(
    profile: UsageProfile<R>,
    methods: Vec<Method>,
    m: Method<Seq<char>>,
    nothing: Vec<Method>,
)
    requires
        call_ensures(allowed_methods_for::<R>, (Some(&profile),), methods),
        call_ensures(allowed_methods_for::<R>, (None,), nothing),
    ensures
        views(methods@).contains(m) <==> !(m is Unknown) && may_call(profile, m),
        nothing@.len() == 0,
{
    told_methods_are_the_permitted_ones(profile, m);
    crate::laws::access::lemma_may_call(profile, m);
    lemma_supported(m);
    assert(views(nothing@).len() == nothing@.len());
}

/// A payment that came in is told with its hash and amount, as settled now.
pub proof fn received_payments_are_told(
    payment_hash: [u8; 32],
    amount_msat: u64,
    channels: Seq<ChannelDetails>,
    now: u64,
    notice: Notice,
)
    requires
        notice@ == notice_of(
            NodeEvent::PaymentReceived { payment_hash, amount_msat },
            channels,
            now,
        ),
    ensures
        notice matches Notice::Wallet(Notification::PaymentReceived(n)) && {
            &&& n.transaction_type == Some(TransactionType::Incoming)
            &&& n.state == Some(TransactionState::Settled)
            &&& n.payment_hash@ == hex_text(payment_hash@)
            &&& n.amount == amount_msat
            &&& n.fees_paid == 0
            &&& n.created_at == Some(now)
            &&& n.settled_at == now
        },
{
}

/// A payment that went out is told with its hash and fee, as settled now.
pub proof fn sent_payments_are_told(
    payment_hash: [u8; 32],
    fee_paid_msat: Option<u64>,
    channels: Seq<ChannelDetails>,
    now: u64,
    notice: Notice,
)
    requires
        notice@ == notice_of(
            NodeEvent::PaymentSuccessful { payment_hash, fee_paid_msat },
            channels,
            now,
        ),
    ensures
        notice matches Notice::Wallet(Notification::PaymentSent(n)) && {
            &&& n.transaction_type == Some(TransactionType::Outgoing)
            &&& n.state == Some(TransactionState::Settled)
            &&& n.payment_hash@ == hex_text(payment_hash@)
            &&& n.amount == 0
            &&& fee_paid_msat matches Some(fee) ==> n.fees_paid == fee
            &&& fee_paid_msat is None ==> n.fees_paid == 0
            &&& n.created_at == Some(now)
            &&& n.settled_at == now
        },
{
}

/// A payment that waits is told with its hash, its amount and the height up to
/// which it can be settled.
pub proof fn held_payments_are_told(
    payment_hash: [u8; 32],
    claimable_amount_msat: u64,
    claim_deadline: Option<u32>,
    channels: Seq<ChannelDetails>,
    now: u64,
    notice: Notice,
)
    requires
        notice@ == notice_of(
            NodeEvent::PaymentClaimable { payment_hash, claimable_amount_msat, claim_deadline },
            channels,
            now,
        ),
    ensures
        notice matches Notice::Wallet(Notification::HoldInvoiceAccepted(n)) && {
            &&& n.transaction_type == TransactionType::Incoming
            &&& n.state == Some(TransactionState::Accepted)
            &&& n.payment_hash@ == hex_text(payment_hash@)
            &&& n.amount == claimable_amount_msat
            &&& claim_deadline matches Some(height) ==> n.settle_deadline == height
            &&& claim_deadline is None ==> n.settle_deadline == 0
            &&& n.created_at == now
            &&& n.expires_at == now
        },
{
}

proof fn lemma_channel_named(channels: Seq<ChannelDetails>, id: Seq<char>, i: int)
    requires
        is_first_with_id(channels, id, i),
    ensures
        channel_named(channel_infos(channels), id) == Some(channel_info(channels[i])),
    decreases i,
{
    let infos = channel_infos(channels);
    assert(infos[0] == channel_info(channels[0]));
    if i > 0 {
        assert(channels[0].channel_id@ != id);
        let rest = channels.skip(1);
        assert forall|j: int| 0 <= j < i - 1 implies (#[trigger] rest[j]).channel_id@ != id by {
            assert(rest[j] == channels[j + 1]);
        }
        assert(rest[i - 1] == channels[i]);
        lemma_channel_named(rest, id, i - 1);
        assert(infos.skip(1) =~= channel_infos(rest));
    }
}

proof fn lemma_no_channel_named(channels: Seq<ChannelDetails>, id: Seq<char>)
    requires
        forall|j: int| 0 <= j < channels.len() ==> (#[trigger] channels[j]).channel_id@ != id,
    ensures
        channel_named(channel_infos(channels), id) is None,
    decreases channels.len(),
{
    let infos = channel_infos(channels);
    if channels.len() > 0 {
        assert(infos[0] == channel_info(channels[0]));
        assert(channels[0].channel_id@ != id);
        let rest = channels.skip(1);
        assert forall|j: int| 0 <= j < rest.len() implies (#[trigger] rest[j]).channel_id@ != id by {
            assert(rest[j] == channels[j + 1]);
        }
        lemma_no_channel_named(rest, id);
        assert(infos.skip(1) =~= channel_infos(rest));
    }
}

/// A channel that can be used is told with its peer and funding, and with the
/// capacity and the funds of both sides that the node has for it.
pub proof fn opened_channels_are_told(
    channel_id: String,
    counterparty_node_id: Option<NodeId>,
    funding_txid: Option<String>,
    channels: Seq<ChannelDetails>,
    now: u64,
    notice: Notice,
    i: int,
)
    requires
        notice@ == notice_of(
            NodeEvent::ChannelReady { channel_id, counterparty_node_id, funding_txid },
            channels,
            now,
        ),
        forall|j: int|
            0 <= j < channels.len() ==> (#[trigger] channels[j]).channel_value_sats * 1000
                <= u64::MAX,
    ensures
        notice matches Notice::Node(NncNotification::ChannelOpened(n)) && {
            &&& n.id@ == channel_id@
            &&& counterparty_node_id matches Some(node) ==> n.peer_pubkey@ == hex_text(node.bytes@)
            &&& counterparty_node_id is None ==> n.peer_pubkey@ == ""@
            &&& funding_txid matches Some(txid) ==> n.funding_txid@ == txid@
            &&& funding_txid is None ==> n.funding_txid@ == ""@
            &&& is_first_with_id(channels, channel_id@, i) ==> {
                &&& n.capacity == channels[i].channel_value_sats * 1000
                &&& n.local_balance == channels[i].outbound_capacity_msat
                &&& n.remote_balance == channels[i].inbound_capacity_msat
                &&& n.is_private != channels[i].is_announced
                &&& n.short_channel_id is Some <==> channels[i].short_channel_id is Some
                &&& channels[i].short_channel_id matches Some(scid) ==> n.short_channel_id->0@
                    == scid_text(scid)
            }
            &&& (forall|j: int|
                0 <= j < channels.len() ==> (#[trigger] channels[j]).channel_id@ != channel_id@)
                ==> {
                &&& n.capacity == 0
                &&& n.local_balance == 0
                &&& n.remote_balance == 0
                &&& !n.is_private
                &&& n.short_channel_id is None
            }
        },
{
    if is_first_with_id(channels, channel_id@, i) {
        lemma_channel_named(channels, channel_id@, i);
    }
    if forall|j: int|
        0 <= j < channels.len() ==> (#[trigger] channels[j]).channel_id@ != channel_id@ {
        lemma_no_channel_named(channels, channel_id@);
    }
}

/// A channel that is gone is told with its peer and the way that it was closed:
/// by force, in agreement, or in a way that is not known.
pub proof fn closed_channels_are_told(
    channel_id: String,
    counterparty_node_id: Option<NodeId>,
    reason: Option<CloseReason>,
    channels: Seq<ChannelDetails>,
    now: u64,
    notice: Notice,
)
    requires
        notice@ == notice_of(
            NodeEvent::ChannelClosed { channel_id, counterparty_node_id, reason },
            channels,
            now,
        ),
    ensures
        notice matches Notice::Node(NncNotification::ChannelClosed(n)) && {
            &&& n.id@ == channel_id@
            &&& counterparty_node_id matches Some(node) ==> n.peer_pubkey@ == hex_text(node.bytes@)
            &&& counterparty_node_id is None ==> n.peer_pubkey@ == ""@
            &&& reason == Some(CloseReason::CounterpartyForceClosed) || reason == Some(
                CloseReason::HolderForceClosed,
            ) ==> n.close_type@ == "force"@
            &&& reason == Some(CloseReason::LegacyCooperativeClosure) || reason == Some(
                CloseReason::LocallyInitiatedCooperativeClosure,
            ) || reason == Some(CloseReason::CounterpartyInitiatedCooperativeClosure)
                ==> n.close_type@ == "cooperative"@
            &&& reason is None || reason == Some(CloseReason::Another) ==> n.close_type@
                == "unknown"@
        },
{
}

/// A forward is told to nobody, and recorded as the last: what went out, what was
/// earned, and what came in, which is both together as far as it fits. No other
/// event touches the forwards.
pub proof fn forwards_are_recorded(
    event: NodeEvent,
    before: Seq<ForwardingView>,
    channels: Seq<ChannelDetails>,
    now: u64,
    notice: Notice,
)
    requires
        notice@ == notice_of(event, channels, now),
    ensures
        event matches NodeEvent::PaymentForwarded {
            prev_channel_id,
            next_channel_id,
            total_fee_earned_msat,
            outbound_amount_forwarded_msat,
        } ==> {
            let after = forwards_after(event, before, now);
            let entry = after.last();
            &&& notice is Nobody
            &&& after.len() == before.len() + 1
            &&& after.drop_last() == before
            &&& entry.incoming_channel_id == prev_channel_id@
            &&& entry.outgoing_channel_id == next_channel_id@
            &&& total_fee_earned_msat matches Some(fee) ==> entry.fee_earned == fee
            &&& total_fee_earned_msat is None ==> entry.fee_earned == 0
            &&& outbound_amount_forwarded_msat matches Some(n) ==> entry.outgoing_amount == n
            &&& outbound_amount_forwarded_msat is None ==> entry.outgoing_amount == 0
            &&& entry.outgoing_amount + entry.fee_earned <= u64::MAX ==> entry.incoming_amount
                == entry.outgoing_amount + entry.fee_earned
            &&& entry.outgoing_amount + entry.fee_earned > u64::MAX ==> entry.incoming_amount
                == u64::MAX
            &&& entry.settled_at == now
        },
        !(event is PaymentForwarded) ==> forwards_after(event, before, now) == before,
        event is Another ==> notice is Nobody,
{
    if event is PaymentForwarded {
        assert(forwards_after(event, before, now).drop_last() =~= before);
    }
}

/// What is told goes by the type that clients subscribe to.
pub proof fn notifications_go_by_their_types(
    wallet: Notification,
    wallet_type: &'static str,
    node: NncNotification,
    node_type: &'static str,
)
    requires
        call_ensures(Notification::kind, (&wallet,), wallet_type),
        call_ensures(NncNotification::kind, (&node,), node_type),
    ensures
        wallet is PaymentReceived ==> wallet_type@ == "payment_received"@,
        wallet is PaymentSent ==> wallet_type@ == "payment_sent"@,
        wallet is HoldInvoiceAccepted ==> wallet_type@ == "hold_invoice_accepted"@,
        node is ChannelOpened ==> node_type@ == "channel_opened"@,
        node is ChannelClosed ==> node_type@ == "channel_closed"@,
{
}

/// Events are taken in by their kinds: wallet requests, control requests and
/// grants. All others are passed over.
pub proof fn events_are_taken_in_by_kind(kind: u16, out: Incoming)
    requires
        call_ensures(incoming, (kind,), out),
    ensures
        out == Incoming::WalletRequest <==> kind == 23194,
        out == Incoming::ControlRequest <==> kind == 23198,
        out == Incoming::Grant <==> kind == 30078,
{
}

/// A text greets where it says hello, at any place, and nowhere else.
pub proof fn greetings_say_hello(
    text: &str,
    out: bool,
    before: Seq<char>,
    after: Seq<char>,
    answer: Option<&'static str>,
)
    requires
        call_ensures(says_hello, (text,), out),
        call_ensures(greeting, (text,), answer),
    ensures
        text@ == before + "hello"@ + after ==> out,
        out ==> exists|i: int| #[trigger]
            text@.skip(i).len() >= 5 && 0 <= i && text@.skip(i).take(5) == "hello"@,
        answer matches Some(t) ==> t@ == "Hi"@,
{
    reveal_strlit("hello");
    if text@ == before + "hello"@ + after {
        let i = before.len() as int;
        assert(text@.subrange(i, i + 5) =~= "hello"@);
    }
    if out {
        let i = choose|i: int|
            0 <= i <= text@.len() - "hello"@.len() && #[trigger] text@.subrange(
                i,
                i + "hello"@.len(),
            ) == "hello"@;
        assert(text@.skip(i).take(5) =~= text@.subrange(i, i + 5));
        assert(text@.skip(i).len() >= 5);
    }
}

/// A tag with a name and a value.
pub open spec fn is_tag(t: Seq<String>, name: Seq<char>, value: Seq<char>) -> bool {
    t.len() == 2 && t[0]@ == name && t[1]@ == value
}

proof fn lemma_tags(event: EventDraft, i: int)
    requires
        0 <= i < event.tags@.len(),
    ensures
        event@.tags.len() == event.tags@.len(),
        event@.tags[i] == texts(event.tags@[i]@),
        texts(event.tags@[i]@).len() == event.tags@[i]@.len(),
        forall|k: int|
            0 <= k < event.tags@[i]@.len() ==> #[trigger] texts(event.tags@[i]@)[k]
                == event.tags@[i]@[k]@,
{
}

proof fn lemma_is_tag(t: Seq<String>, name: Seq<char>, value: Seq<char>)
    requires
        texts(t) == seq![name, value],
    ensures
        is_tag(t, name, value),
{
    assert(texts(t).len() == t.len());
    assert(texts(t)[0] == t[0]@);
    assert(texts(t)[1] == t[1]@);
}

/// The service tells what can be asked of the wallet and of the node in an event
/// of its own kind each, with the encryption schemes and the types of events that
/// clients can be told of.
pub proof fn the_service_tells_of_itself(wallet: EventDraft, control: EventDraft)
    requires
        call_ensures(wallet_info_event, (), wallet),
        call_ensures(control_info_event, (), control),
    ensures
        wallet.kind == 13194,
        control.kind == 13198,
        wallet.tags@.len() == 2,
        control.tags@.len() == 2,
        is_tag(wallet.tags@[0]@, "encryption"@, "nip44_v2 nip04"@),
        is_tag(control.tags@[0]@, "encryption"@, "nip44_v2 nip04"@),
        is_tag(
            wallet.tags@[1]@,
            "notifications"@,
            "payment_received payment_sent hold_invoice_accepted"@,
        ),
        is_tag(control.tags@[1]@, "notifications"@, "channel_opened channel_closed"@),
{
    reveal_with_fuel(spaced, 4);
    reveal_strlit(" ");
    reveal_strlit("nip44_v2");
    reveal_strlit("nip04");
    reveal_strlit("nip44_v2 nip04");
    reveal_strlit("payment_received");
    reveal_strlit("payment_sent");
    reveal_strlit("hold_invoice_accepted");
    reveal_strlit("payment_received payment_sent hold_invoice_accepted");
    reveal_strlit("channel_opened");
    reveal_strlit("channel_closed");
    reveal_strlit("channel_opened channel_closed");
    let schemes = encryption_schemes();
    assert(schemes.drop_last() =~= seq!["nip44_v2"@]);
    assert(spaced(schemes) =~= "nip44_v2 nip04"@);
    let told = crate::wallet::execute::wallet_notifications();
    assert(told.drop_last() =~= seq!["payment_received"@, "payment_sent"@]);
    assert(told.drop_last().drop_last() =~= seq!["payment_received"@]);
    assert(spaced(told) =~= "payment_received payment_sent hold_invoice_accepted"@);
    let of_node = crate::control::request::node_notifications();
    assert(of_node.drop_last() =~= seq!["channel_opened"@]);
    assert(spaced(of_node) =~= "channel_opened channel_closed"@);
    assert(wallet@.tags.len() == wallet.tags@.len());
    assert(control@.tags.len() == control.tags@.len());
    lemma_tags(wallet, 0);
    lemma_tags(wallet, 1);
    lemma_tags(control, 0);
    lemma_tags(control, 1);
    lemma_is_tag(wallet.tags@[0]@, "encryption"@, "nip44_v2 nip04"@);
    lemma_is_tag(control.tags@[0]@, "encryption"@, "nip44_v2 nip04"@);
    lemma_is_tag(
        wallet.tags@[1]@,
        "notifications"@,
        "payment_received payment_sent hold_invoice_accepted"@,
    );
    lemma_is_tag(control.tags@[1]@, "notifications"@, "channel_opened channel_closed"@);
}

/// A message is opened under the scheme that is named, and under no other.
pub proof fn messages_open_under_their_scheme(
    secret: [u8; 32],
    pubkey: [u8; 32],
    content: &str,
    scheme: &str,
    out: Result<String, String>,
)
    requires
        call_ensures(decrypt_content, (&secret, &pubkey, content, scheme), out),
    ensures
        scheme@ == "nip44_v2"@ ==> match out {
            Ok(text) => nip44_open(secret@, pubkey@, content@) == Ok::<Seq<char>, Seq<char>>(text@),
            Err(e) => nip44_open(secret@, pubkey@, content@) == Err::<Seq<char>, Seq<char>>(e@),
        },
        scheme@ == "nip04"@ ==> match out {
            Ok(text) => nip04_open(secret@, pubkey@, content@) == Ok::<Seq<char>, Seq<char>>(text@),
            Err(e) => nip04_open(secret@, pubkey@, content@) == Err::<Seq<char>, Seq<char>>(e@),
        },
        scheme@ != "nip44_v2"@ && scheme@ != "nip04"@ ==> (out matches Err(e) && e@
            == "unsupported encryption: "@ + scheme@),
{
    reveal_strlit("nip44_v2");
    reveal_strlit("nip04");
    assert("nip44_v2"@.len() == 8 && "nip04"@.len() == 5);
}

/// What is sealed under a scheme opens under it, for the two sides that it is
/// between, and nothing is sealed under a scheme that is not known.
pub proof fn sealed_messages_open_again(
    secret: [u8; 32],
    pubkey: [u8; 32],
    content: &str,
    scheme: &str,
    sealed: Result<String, String>,
    message: &str,
    theirs: [u8; 32],
    ours: [u8; 32],
    read: Result<String, String>,
    read_there: Result<String, String>,
)
    requires
        call_ensures(encrypt_content, (&secret, &pubkey, content, scheme), sealed),
        call_ensures(decrypt_content, (&secret, &pubkey, message, scheme), read),
        call_ensures(decrypt_content, (&theirs, &ours, message, scheme), read_there),
    ensures
        sealed is Ok ==> scheme@ == "nip44_v2"@ || scheme@ == "nip04"@,
        sealed matches Ok(m) ==> (m@ == message@ ==> (read matches Ok(t) && t@ == content@)),
        sealed matches Ok(m) ==> (m@ == message@ && other_side(
            secret@,
            pubkey@,
            theirs@,
            ours@,
        ) ==> (read_there matches Ok(t) && t@ == content@)),
        scheme@ != "nip44_v2"@ && scheme@ != "nip04"@ ==> (sealed matches Err(e) && e@
            == "unsupported encryption: "@ + scheme@),
{
}

/// The tag at place `i` is the first with the name and a value.
pub open spec fn is_first_tag(tags: Seq<Vec<String>>, name: Seq<char>, i: int) -> bool {
    &&& 0 <= i < tags.len()
    &&& tags[i]@.len() >= 2
    &&& tags[i]@[0]@ == name
    &&& forall|j: int|
        0 <= j < i ==> (#[trigger] tags[j])@.len() < 2 || tags[j]@[0]@ != name
}

pub(crate) proof fn lemma_first_tag(tags: Seq<Vec<String>>, name: Seq<char>, i: int)
    requires
        is_first_tag(tags, name, i),
    ensures
        tagged(tag_views(tags), name) == Some(tags[i]@[1]@),
    decreases i,
{
    let all = tag_views(tags);
    assert(all[0] == texts(tags[0]@));
    assert(all[0].len() == tags[0]@.len());
    if i > 0 {
        assert(tags[0]@.len() < 2 || tags[0]@[0]@ != name);
        let rest = tags.skip(1);
        assert forall|j: int| 0 <= j < i - 1 implies (#[trigger] rest[j])@.len() < 2
            || rest[j]@[0]@ != name by {
            assert(rest[j] == tags[j + 1]);
        }
        assert(rest[i - 1] == tags[i]);
        lemma_first_tag(rest, name, i - 1);
        assert(all.skip(1) =~= tag_views(rest));
    }
}

pub(crate) proof fn lemma_no_tag(tags: Seq<Vec<String>>, name: Seq<char>)
    requires
        forall|j: int|
            0 <= j < tags.len() ==> (#[trigger] tags[j])@.len() < 2 || tags[j]@[0]@ != name,
    ensures
        tagged(tag_views(tags), name) is None,
    decreases tags.len(),
{
    let all = tag_views(tags);
    if tags.len() > 0 {
        assert(all[0] == texts(tags[0]@));
        assert(all[0].len() == tags[0]@.len());
        assert(tags[0]@.len() < 2 || tags[0]@[0]@ != name);
        let rest = tags.skip(1);
        assert forall|j: int| 0 <= j < rest.len() implies (#[trigger] rest[j])@.len() < 2
            || rest[j]@[0]@ != name by {
            assert(rest[j] == tags[j + 1]);
        }
        lemma_no_tag(rest, name);
        assert(all.skip(1) =~= tag_views(rest));
    }
}

/// The scheme of an event is the one that its first tag for it names, and the
/// older one where there is none.
pub proof fn schemes_are_named_by_a_tag(tags: Vec<Vec<String>>, scheme: &str, i: int)
    requires
        call_ensures(get_encryption_scheme, (&tags,), scheme),
    ensures
        is_first_tag(tags@, "encryption"@, i) ==> scheme@ == tags@[i]@[1]@,
        (forall|j: int|
            0 <= j < tags@.len() ==> (#[trigger] tags@[j])@.len() < 2 || tags@[j]@[0]@
                != "encryption"@) ==> scheme@ == "nip04"@,
{
    if is_first_tag(tags@, "encryption"@, i) {
        lemma_first_tag(tags@, "encryption"@, i);
    }
    if forall|j: int|
        0 <= j < tags@.len() ==> (#[trigger] tags@[j])@.len() < 2 || tags@[j]@[0]@
            != "encryption"@ {
        lemma_no_tag(tags@, "encryption"@);
    }
}

/// A request is carried out if it opens under the scheme that it names, and
/// dropped if it does not. One under a scheme that is not supported is answered
/// under the older one, and the answer says so.
pub proof fn requests_are_opened_or_answered(
    secret: [u8; 32],
    sender: [u8; 32],
    tags: Vec<Vec<String>>,
    content: &str,
    scheme: &str,
    text: Result<String, String>,
    wallet: Intake<Response>,
    control: Intake<ControlResponse>,
)
    requires
        call_ensures(get_encryption_scheme, (&tags,), scheme),
        call_ensures(decrypt_content, (&secret, &sender, content, scheme), text),
        call_ensures(handle_nwc_request, (&secret, &sender, &tags, content), wallet),
        call_ensures(handle_control_request, (&secret, &sender, &tags, content), control),
    ensures
        scheme@ == "nip44_v2"@ || scheme@ == "nip04"@ ==> {
            &&& text matches Ok(t) ==> (wallet matches Intake::CarryOut { payload, scheme: used }
                && payload@ == t@ && used@ == scheme@) && (control matches Intake::CarryOut {
                payload,
                scheme: used,
            } && payload@ == t@ && used@ == scheme@)
            &&& text matches Err(e) ==> (wallet matches Intake::Drop { reason } && reason@ == e@)
                && (control matches Intake::Drop { reason } && reason@ == e@)
        },
        scheme@ != "nip44_v2"@ && scheme@ != "nip04"@ ==> {
            &&& wallet matches Intake::Answer { answer, scheme: used }
            &&& used@ == "nip04"@
            &&& answer.result is None
            &&& answer.error matches Some(e)
            &&& e.code == ErrorCode::UnsupportedEncryption
        },
        scheme@ != "nip44_v2"@ && scheme@ != "nip04"@ ==> {
            &&& control matches Intake::Answer { answer, scheme: used }
            &&& used@ == "nip04"@
            &&& answer.result is None
            &&& answer.error matches Some(e)
            &&& e.code@ == "UNSUPPORTED_ENCRYPTION"@
        },
{
}

/// An answer goes out under the kind of its protocol, to the sender of the
/// request, names the request, and opens to what was to be answered.
pub proof fn answers_go_to_the_sender(
    secret: [u8; 32],
    sender: [u8; 32],
    event_id: &str,
    payload: &str,
    scheme: &str,
    wallet: EventDraft,
    control: EventDraft,
    opened_again: Result<String, String>,
    content: &str,
)
    requires
        call_ensures(
            reply_to_wallet_request,
            (&secret, &sender, event_id, payload, scheme),
            Ok(wallet),
        ),
        call_ensures(
            reply_to_control_request,
            (&secret, &sender, event_id, payload, scheme),
            Ok(control),
        ),
        content@ == wallet.content@,
        call_ensures(decrypt_content, (&secret, &sender, content, scheme), opened_again),
    ensures
        wallet.kind == 23195,
        control.kind == 23199,
        wallet.tags@.len() >= 2,
        control.tags@.len() >= 2,
        is_tag(wallet.tags@[0]@, "p"@, hex_text(sender@)),
        is_tag(wallet.tags@[1]@, "e"@, event_id@),
        is_tag(control.tags@[0]@, "p"@, hex_text(sender@)),
        is_tag(control.tags@[1]@, "e"@, event_id@),
        opened_again matches Ok(text) && text@ == payload@,
{
    assert(wallet@.tags.len() == wallet.tags@.len());
    assert(control@.tags.len() == control.tags@.len());
    lemma_tags(wallet, 0);
    lemma_tags(wallet, 1);
    lemma_tags(control, 0);
    lemma_tags(control, 1);
    lemma_is_tag(wallet.tags@[0]@, "p"@, hex_text(sender@));
    lemma_is_tag(wallet.tags@[1]@, "e"@, event_id@);
    lemma_is_tag(control.tags@[0]@, "p"@, hex_text(sender@));
    lemma_is_tag(control.tags@[1]@, "e"@, event_id@);
}

/// Every event of a wallet notification has one of the two kinds, is for a
/// subscriber, and opens to the notification under the scheme of its kind.
pub proof fn wallet_notifications_open_for_subscribers(
    secret: [u8; 32],
    subscriptions: SubscriptionStore,
    kind: &str,
    payload: &str,
    out: Publication,
    j: int,
)
    requires
        call_ensures(publish_nwc_notification, (&secret, &subscriptions, kind, payload), out),
        0 <= j < out.events@.len(),
    ensures
        out.events@[j].kind == 23196 || out.events@[j].kind == 23197,
        exists|client: Seq<char>| #[trigger]
            subscribed(subscriptions@, client, kind@) && (key_parse(client) matches Ok(key)
                && is_tag(out.events@[j].tags@[0]@, "p"@, hex_text(key)) && (out.events@[j].kind
                == 23196 ==> nip04_open(secret@, key, out.events@[j].content@) == Ok::<
                Seq<char>,
                Seq<char>,
            >(payload@)) && (out.events@[j].kind == 23197 ==> nip44_open(
                secret@,
                key,
                out.events@[j].content@,
            ) == Ok::<Seq<char>, Seq<char>>(payload@))),
{
    reveal_strlit("nip44_v2");
    reveal_strlit("nip04");
    assert("nip44_v2"@.len() == 8 && "nip04"@.len() == 5);
    let forms = crate::relay::publish::wallet_forms();
    let clients = choose|clients: Seq<Seq<char>>| #[trigger]
        are_subscribers(clients, subscriptions@, kind@) && crate::relay::publish::announced(
            out,
            secret@,
            clients,
            payload@,
            forms,
        );
    let event = out.events@[j];
    assert(crate::relay::publish::delivers_in_turn(event, j, secret@, clients, payload@, forms));
    assert(forms.len() == 2);
    assert(clients.len() * forms.len() == 2 * clients.len()) by (nonlinear_arith)
        requires
            forms.len() == 2,
    ;
    assert(0 <= j / 2 < clients.len());
    let client = clients[j / 2];
    assert(clients.contains(client));
    assert(subscribed(subscriptions@, client, kind@));
    assert(event@.tags.len() == event.tags@.len());
    lemma_tags(event, 0);
    lemma_is_tag(event.tags@[0]@, "p"@, hex_text(key_parse(client)->Ok_0));
}

/// Every event of a notification of the node has its kind, is for a subscriber,
/// and opens to the notification under the newer scheme.
pub proof fn node_notifications_open_for_subscribers(
    secret: [u8; 32],
    subscriptions: SubscriptionStore,
    kind: &str,
    payload: &str,
    out: Publication,
    j: int,
)
    requires
        call_ensures(publish_nnc_notification, (&secret, &subscriptions, kind, payload), out),
        0 <= j < out.events@.len(),
    ensures
        out.events@[j].kind == 23200,
        exists|client: Seq<char>| #[trigger]
            subscribed(subscriptions@, client, kind@) && (key_parse(client) matches Ok(key)
                && is_tag(out.events@[j].tags@[0]@, "p"@, hex_text(key)) && nip44_open(
                secret@,
                key,
                out.events@[j].content@,
            ) == Ok::<Seq<char>, Seq<char>>(payload@)),
{
    let forms = crate::relay::publish::node_forms();
    let clients = choose|clients: Seq<Seq<char>>| #[trigger]
        are_subscribers(clients, subscriptions@, kind@) && crate::relay::publish::announced(
            out,
            secret@,
            clients,
            payload@,
            forms,
        );
    let event = out.events@[j];
    assert(crate::relay::publish::delivers_in_turn(event, j, secret@, clients, payload@, forms));
    assert(forms.len() == 1);
    assert(j / 1 == j && j % 1 == 0);
    assert(clients.len() * forms.len() == clients.len()) by (nonlinear_arith)
        requires
            forms.len() == 1,
    ;
    assert(0 <= j < clients.len());
    let client = clients[j];
    assert(clients.contains(client));
    assert(subscribed(subscriptions@, client, kind@));
    assert(event@.tags.len() == event.tags@.len());
    lemma_tags(event, 0);
    lemma_is_tag(event.tags@[0]@, "p"@, hex_text(key_parse(client)->Ok_0));
}

/// As many events go out as there are subscribers and forms, two for the wallet
/// and one for the node, unless an error is told.
pub proof fn all_subscribers_are_told(
    secret: [u8; 32],
    subscriptions: SubscriptionStore,
    kind: &str,
    payload: &str,
    wallet: Publication,
    node: Publication,
    subscribers: Vec<String>,
)
    requires
        call_ensures(publish_nwc_notification, (&secret, &subscriptions, kind, payload), wallet),
        call_ensures(publish_nnc_notification, (&secret, &subscriptions, kind, payload), node),
        call_ensures(get_subscribers, (&subscriptions, kind), subscribers),
    ensures
        wallet.error is None ==> wallet.events@.len() == 2 * subscribers@.len(),
        wallet.error is Some ==> wallet.events@.len() < 2 * subscribers@.len(),
        node.error is None ==> node.events@.len() == subscribers@.len(),
        node.error is Some ==> node.events@.len() < subscribers@.len(),
{
    let a = choose|clients: Seq<Seq<char>>| #[trigger]
        are_subscribers(clients, subscriptions@, kind@) && crate::relay::publish::announced(
            wallet,
            secret@,
            clients,
            payload@,
            crate::relay::publish::wallet_forms(),
        );
    let b = choose|clients: Seq<Seq<char>>| #[trigger]
        are_subscribers(clients, subscriptions@, kind@) && crate::relay::publish::announced(
            node,
            secret@,
            clients,
            payload@,
            crate::relay::publish::node_forms(),
        );
    let c = texts(subscribers@);
    assert(c.len() == subscribers@.len());
    lemma_same_length(a, c);
    lemma_same_length(b, c);
    let both = crate::relay::publish::wallet_forms();
    assert(both.len() == 2);
    assert(a.len() * both.len() == 2 * a.len()) by (nonlinear_arith)
        requires
            both.len() == 2,
    ;
    let forms = crate::relay::publish::node_forms();
    assert(forms.len() == 1);
    assert(b.len() * forms.len() == b.len()) by (nonlinear_arith)
        requires
            forms.len() == 1,
    ;
}

proof fn lemma_same_length(a: Seq<Seq<char>>, b: Seq<Seq<char>>)
    requires
        a.no_duplicates(),
        b.no_duplicates(),
        forall|c: Seq<char>| #[trigger] a.contains(c) <==> b.contains(c),
    ensures
        a.len() == b.len(),
{
    assert forall|c: Seq<char>| #[trigger] a.to_set().contains(c) == b.to_set().contains(c) by {
        assert(a.contains(c) == b.contains(c));
    }
    assert(a.to_set() =~= b.to_set());
    a.unique_seq_to_set();
    b.unique_seq_to_set();
}

/// A client is told of a type exactly if it is among the subscribers of it.
pub proof fn subscribers_are_those_subscribed(
    subscriptions: SubscriptionStore,
    client: &str,
    kind: &str,
    told: bool,
    subscribers: Vec<String>,
)
    requires
        call_ensures(is_subscribed, (&subscriptions, client, kind), told),
        call_ensures(get_subscribers, (&subscriptions, kind), subscribers),
    ensures
        told <==> exists|i: int| 0 <= i < subscribers@.len() && (#[trigger] subscribers@[i])@ == client@,
        told <==> subscriptions@.contains_key(client@) && subscriptions@[client@].contains(kind@),
{
    let all = texts(subscribers@);
    assert(all.len() == subscribers@.len());
    assert(all.contains(client@) == told);
    if all.contains(client@) {
        let i = choose|i: int| 0 <= i < all.len() && all[i] == client@;
        assert(subscribers@[i]@ == client@);
    }
    if exists|i: int| 0 <= i < subscribers@.len() && (#[trigger] subscribers@[i])@ == client@ {
        let i = choose|i: int|
            0 <= i < subscribers@.len() && (#[trigger] subscribers@[i])@ == client@;
        assert(all[i] == client@);
    }
}

/// A grant for a node names the node and the client, with a colon between them,
/// in its first tag for it. One for another node, or for no client, is for
/// nobody.
pub proof fn grants_name_node_and_client(
    tags: Vec<Vec<String>>,
    key: [u8; 32],
    out: Option<String>,
    i: int,
    node: Seq<char>,
    client: Seq<char>,
)
    requires
        call_ensures(parse_grant_target, (&tags, &Some(key)), out),
        is_first_tag(tags@, "d"@, i),
        tags@[i]@[1]@ == node + ":"@ + client,
        forall|k: int| 0 <= k < node.len() ==> #[trigger] node[k] != ':',
    ensures
        node == hex_text(key@) && client.len() > 0 ==> (out matches Some(t) && t@ == client),
        node != hex_text(key@) || client.len() == 0 ==> out is None,
{
    lemma_first_tag(tags@, "d"@, i);
    reveal_strlit(":");
    assert(":"@ =~= seq![':']);
    let value = tags@[i]@[1]@;
    lemma_first_index_behind(node, ':', client);
    assert(value == node + seq![':'] + client);
    assert(value.take(node.len() as int) =~= node);
    assert(value.skip(node.len() as int + 1) =~= client);
}

/// A grant without the tag that names node and client is for nobody.
pub proof fn grants_without_a_target_are_for_nobody(
    tags: Vec<Vec<String>>,
    key: Option<[u8; 32]>,
    out: Option<String>,
)
    requires
        call_ensures(parse_grant_target, (&tags, &key), out),
        forall|j: int|
            0 <= j < tags@.len() ==> (#[trigger] tags@[j])@.len() < 2 || tags@[j]@[0]@ != "d"@,
    ensures
        out is None,
{
    lemma_no_tag(tags@, "d"@);
}

/// A grant that was made later than the one before, or in the same second under a
/// greater name, takes its place; an earlier one changes nothing. No other client
/// is touched.
pub proof fn later_grants_replace_earlier_ones<R>(
    known: GrantsView<R>,
    grant: Grant<R>,
    other: Seq<char>,
)
    ensures
        ({
            let after = after_grant(known, grant);
            let before = known.applied.contains_key(grant.target);
            let old_mark = known.applied[grant.target];
            &&& !before || grant.mark.created_at > old_mark.created_at || (grant.mark.created_at
                == old_mark.created_at && text_less(old_mark.event_id, grant.mark.event_id)) ==> {
                &&& after.applied.contains_key(grant.target)
                &&& after.applied[grant.target] == grant.mark
                &&& grant.profile matches Some(p) ==> after.profiles.contains_key(grant.target)
                    && after.profiles[grant.target] == p
                &&& grant.profile is None ==> after.profiles == known.profiles
            }
            &&& before && (grant.mark.created_at < old_mark.created_at || (grant.mark.created_at
                == old_mark.created_at && !text_less(old_mark.event_id, grant.mark.event_id)))
                ==> after == known
            &&& other != grant.target ==> {
                &&& after.profiles.contains_key(other) == known.profiles.contains_key(other)
                &&& known.profiles.contains_key(other) ==> after.profiles[other]
                    == known.profiles[other]
                &&& after.applied.contains_key(other) == known.applied.contains_key(other)
                &&& known.applied.contains_key(other) ==> after.applied[other]
                    == known.applied[other]
            }
        }),
{
}

} // verus!
