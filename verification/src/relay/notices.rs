//! What subscribers are told of the events of the node.

use vstd::prelude::*;

use crate::lightning::graph::NodeId;
#[allow(unused_imports)]
use crate::lightning::graph::node_text;
use crate::lightning::hex::hex_string;
#[allow(unused_imports)]
use crate::lightning::hex::hex_text;
use crate::lightning::ldk_service::LdkChannelInfo;
use crate::lightning::node::ChannelDetails;
use crate::lightning::reports::check_capacities;
#[allow(unused_imports)]
use crate::lightning::reports::{capacities_fit, channel_infos};
use crate::lightning::service::LdkService;
use crate::nip47::{TransactionState, TransactionType};
use crate::state::forwarding_store::{record_forward, ForwardingEntry, ForwardingStore};
#[allow(unused_imports)]
use crate::state::forwarding_store::ForwardingView;
use crate::text::{copy_opt_text, copy_text, same_text};
#[allow(unused_imports)]
use crate::text::opt_text;
#[allow(unused_imports)]
use crate::views::{option_view, views};

verus! {

/// A payment that came in or went out. Amounts are in millisatoshis, times in
/// seconds since the epoch.
#[derive(Debug)]
pub struct PaymentNotification<S = String> {
    pub transaction_type: Option<TransactionType>,
    pub state: Option<TransactionState>,
    pub invoice: S,
    pub description: Option<S>,
    pub description_hash: Option<S>,
    pub preimage: S,
    pub payment_hash: S,
    pub amount: u64,
    pub fees_paid: u64,
    pub created_at: Option<u64>,
    pub expires_at: Option<u64>,
    pub settled_at: u64,
}

impl View for PaymentNotification {
    type V = PaymentNotification<Seq<char>>;

    open spec fn view(&self) -> Self::V {
        PaymentNotification {
            transaction_type: self.transaction_type,
            state: self.state,
            invoice: self.invoice@,
            description: opt_text(self.description),
            description_hash: opt_text(self.description_hash),
            preimage: self.preimage@,
            payment_hash: self.payment_hash@,
            amount: self.amount,
            fees_paid: self.fees_paid,
            created_at: self.created_at,
            expires_at: self.expires_at,
            settled_at: self.settled_at,
        }
    }
}

/// A payment that waits to be settled or cancelled.
#[derive(Debug)]
pub struct HoldInvoiceAcceptedNotification<S = String> {
    pub transaction_type: TransactionType,
    pub state: Option<TransactionState>,
    pub invoice: S,
    pub description: Option<S>,
    pub description_hash: Option<S>,
    pub payment_hash: S,
    pub amount: u64,
    pub created_at: u64,
    pub expires_at: u64,
    pub settle_deadline: u32,
}

impl View for HoldInvoiceAcceptedNotification {
    type V = HoldInvoiceAcceptedNotification<Seq<char>>;

    open spec fn view(&self) -> Self::V {
        HoldInvoiceAcceptedNotification {
            transaction_type: self.transaction_type,
            state: self.state,
            invoice: self.invoice@,
            description: opt_text(self.description),
            description_hash: opt_text(self.description_hash),
            payment_hash: self.payment_hash@,
            amount: self.amount,
            created_at: self.created_at,
            expires_at: self.expires_at,
            settle_deadline: self.settle_deadline,
        }
    }
}

/// What subscribers of the wallet are told.
#[derive(Debug)]
pub enum Notification<P = PaymentNotification, H = HoldInvoiceAcceptedNotification> {
    PaymentReceived(P),
    PaymentSent(P),
    HoldInvoiceAccepted(H),
}

/// A [`Notification`] over sequences.
pub type NotificationView = Notification<
    PaymentNotification<Seq<char>>,
    HoldInvoiceAcceptedNotification<Seq<char>>,
>;

impl View for Notification {
    type V = NotificationView;

    open spec fn view(&self) -> NotificationView {
        match self {
            Notification::PaymentReceived(p) => Notification::PaymentReceived(p@),
            Notification::PaymentSent(p) => Notification::PaymentSent(p@),
            Notification::HoldInvoiceAccepted(h) => Notification::HoldInvoiceAccepted(h@),
        }
    }
}

/// The type of a wallet notification, as clients subscribe to it.
pub open spec fn notification_type<P, H>(n: Notification<P, H>) -> Seq<char> {
    match n {
        Notification::PaymentReceived(_) => "payment_received"@,
        Notification::PaymentSent(_) => "payment_sent"@,
        Notification::HoldInvoiceAccepted(_) => "hold_invoice_accepted"@,
    }
}

impl Notification {
    /// The type of the notification, as clients subscribe to it.
    pub fn kind(&self) -> (out: &'static str)
        ensures
            out@ == notification_type(*self),
            out@ == notification_type(self@),
    {
        match self {
            Notification::PaymentReceived(_) => "payment_received",
            Notification::PaymentSent(_) => "payment_sent",
            Notification::HoldInvoiceAccepted(_) => "hold_invoice_accepted",
        }
    }
}

/// A channel that can be used from now on. Amounts are in millisatoshis.
#[derive(Debug)]
pub struct ChannelOpenedNotification<S = String> {
    pub id: S,
    pub short_channel_id: Option<S>,
    pub peer_pubkey: S,
    pub capacity: u64,
    pub local_balance: u64,
    pub remote_balance: u64,
    pub funding_txid: S,
    pub is_private: bool,
}

impl View for ChannelOpenedNotification {
    type V = ChannelOpenedNotification<Seq<char>>;

    open spec fn view(&self) -> Self::V {
        ChannelOpenedNotification {
            id: self.id@,
            short_channel_id: opt_text(self.short_channel_id),
            peer_pubkey: self.peer_pubkey@,
            capacity: self.capacity,
            local_balance: self.local_balance,
            remote_balance: self.remote_balance,
            funding_txid: self.funding_txid@,
            is_private: self.is_private,
        }
    }
}

/// A channel that is gone.
#[derive(Debug)]
pub struct ChannelClosedNotification<S = String> {
    pub id: S,
    pub short_channel_id: Option<S>,
    pub peer_pubkey: S,
    pub capacity: u64,
    pub closing_txid: Option<S>,
    pub close_type: S,
}

impl View for ChannelClosedNotification {
    type V = ChannelClosedNotification<Seq<char>>;

    open spec fn view(&self) -> Self::V {
        ChannelClosedNotification {
            id: self.id@,
            short_channel_id: opt_text(self.short_channel_id),
            peer_pubkey: self.peer_pubkey@,
            capacity: self.capacity,
            closing_txid: opt_text(self.closing_txid),
            close_type: self.close_type@,
        }
    }
}

/// What subscribers of the node are told.
#[derive(Debug)]
pub enum NncNotification<O = ChannelOpenedNotification, C = ChannelClosedNotification> {
    ChannelOpened(O),
    ChannelClosed(C),
}

/// A [`NncNotification`] over sequences.
pub type NncNotificationView = NncNotification<
    ChannelOpenedNotification<Seq<char>>,
    ChannelClosedNotification<Seq<char>>,
>;

impl View for NncNotification {
    type V = NncNotificationView;

    open spec fn view(&self) -> NncNotificationView {
        match self {
            NncNotification::ChannelOpened(o) => NncNotification::ChannelOpened(o@),
            NncNotification::ChannelClosed(c) => NncNotification::ChannelClosed(c@),
        }
    }
}

/// The type of a notification of the node, as clients subscribe to it.
pub open spec fn nnc_notification_type<O, C>(n: NncNotification<O, C>) -> Seq<char> {
    match n {
        NncNotification::ChannelOpened(_) => "channel_opened"@,
        NncNotification::ChannelClosed(_) => "channel_closed"@,
    }
}

impl NncNotification {
    /// The type of the notification, as clients subscribe to it.
    pub fn kind(&self) -> (out: &'static str)
        ensures
            out@ == nnc_notification_type(*self),
            out@ == nnc_notification_type(self@),
    {
        match self {
            NncNotification::ChannelOpened(_) => "channel_opened",
            NncNotification::ChannelClosed(_) => "channel_closed",
        }
    }
}

/// Why a channel was closed, as far as subscribers are told.
#[derive(Debug, Clone, Copy, PartialEq, Eq, Structural)]
pub enum CloseReason {
    CounterpartyForceClosed,
    HolderForceClosed,
    LegacyCooperativeClosure,
    LocallyInitiatedCooperativeClosure,
    CounterpartyInitiatedCooperativeClosure,
    Another,
}

/// What happens on the node.
#[allow(inconsistent_fields)]
#[derive(Debug)]
pub enum NodeEvent {
    PaymentReceived { payment_hash: [u8; 32], amount_msat: u64 },
    PaymentSuccessful { payment_hash: [u8; 32], fee_paid_msat: Option<u64> },
    PaymentClaimable {
        payment_hash: [u8; 32],
        claimable_amount_msat: u64,
        claim_deadline: Option<u32>,
    },
    ChannelReady {
        channel_id: String,
        counterparty_node_id: Option<NodeId>,
        funding_txid: Option<String>,
    },
    ChannelClosed {
        channel_id: String,
        counterparty_node_id: Option<NodeId>,
        reason: Option<CloseReason>,
    },
    PaymentForwarded {
        prev_channel_id: String,
        next_channel_id: String,
        total_fee_earned_msat: Option<u64>,
        outbound_amount_forwarded_msat: Option<u64>,
    },
    Another,
}

/// The figure, or zero where there is none.
pub open spec fn or_zero(n: Option<u64>) -> u64 {
    match n {
        Some(v) => v,
        None => 0,
    }
}

fn figure_or_zero(n: Option<u64>) -> (out: u64)
    ensures
        out == or_zero(n),
{
    match n {
        Some(v) => v,
        None => 0,
    }
}

/// What is told of a payment that came in.
pub open spec fn received(payment_hash: Seq<char>, amount_msat: u64, now: u64) -> NotificationView {
    Notification::PaymentReceived(
        PaymentNotification {
            transaction_type: Some(TransactionType::Incoming),
            state: Some(TransactionState::Settled),
            invoice: ""@,
            description: None,
            description_hash: None,
            preimage: ""@,
            payment_hash,
            amount: amount_msat,
            fees_paid: 0,
            created_at: Some(now),
            expires_at: None,
            settled_at: now,
        },
    )
}

/// What is told of a payment that came in, at the time `now`.
pub fn build_payment_received_notification(payment_hash: &str, amount_msat: u64, now: u64) -> (out:
    Notification)
    ensures
        out@ == received(payment_hash@, amount_msat, now),
{
    Notification::PaymentReceived(
        PaymentNotification {
            transaction_type: Some(TransactionType::Incoming),
            state: Some(TransactionState::Settled),
            invoice: copy_text(""),
            description: None,
            description_hash: None,
            preimage: copy_text(""),
            payment_hash: copy_text(payment_hash),
            amount: amount_msat,
            fees_paid: 0,
            created_at: Some(now),
            expires_at: None,
            settled_at: now,
        },
    )
}

/// What is told of a payment that went out. Its amount is not known.
pub open spec fn sent(payment_hash: Seq<char>, fee_paid_msat: Option<u64>, now: u64) ->
    NotificationView {
    Notification::PaymentSent(
        PaymentNotification {
            transaction_type: Some(TransactionType::Outgoing),
            state: Some(TransactionState::Settled),
            invoice: ""@,
            description: None,
            description_hash: None,
            preimage: ""@,
            payment_hash,
            amount: 0,
            fees_paid: or_zero(fee_paid_msat),
            created_at: Some(now),
            expires_at: None,
            settled_at: now,
        },
    )
}

/// What is told of a payment that went out, at the time `now`. Its amount is not
/// known.
pub fn build_payment_sent_notification(
    payment_hash: &str,
    fee_paid_msat: Option<u64>,
    now: u64,
) -> (out: Notification)
    ensures
        out@ == sent(payment_hash@, fee_paid_msat, now),
{
    Notification::PaymentSent(
        PaymentNotification {
            transaction_type: Some(TransactionType::Outgoing),
            state: Some(TransactionState::Settled),
            invoice: copy_text(""),
            description: None,
            description_hash: None,
            preimage: copy_text(""),
            payment_hash: copy_text(payment_hash),
            amount: 0,
            fees_paid: figure_or_zero(fee_paid_msat),
            created_at: Some(now),
            expires_at: None,
            settled_at: now,
        },
    )
}

/// What is told of a payment that waits.
pub open spec fn held(
    payment_hash: Seq<char>,
    claimable_amount_msat: u64,
    claim_deadline: Option<u32>,
    now: u64,
) -> NotificationView {
    Notification::HoldInvoiceAccepted(
        HoldInvoiceAcceptedNotification {
            transaction_type: TransactionType::Incoming,
            state: Some(TransactionState::Accepted),
            invoice: ""@,
            description: None,
            description_hash: None,
            payment_hash,
            amount: claimable_amount_msat,
            created_at: now,
            expires_at: now,
            settle_deadline: match claim_deadline {
                Some(height) => height,
                None => 0,
            },
        },
    )
}

/// What is told of a payment that waits, at the time `now`.
pub fn build_hold_invoice_accepted_notification(
    payment_hash: &str,
    claimable_amount_msat: u64,
    claim_deadline: Option<u32>,
    now: u64,
) -> (out: Notification)
    ensures
        out@ == held(payment_hash@, claimable_amount_msat, claim_deadline, now),
{
    Notification::HoldInvoiceAccepted(
        HoldInvoiceAcceptedNotification {
            transaction_type: TransactionType::Incoming,
            state: Some(TransactionState::Accepted),
            invoice: copy_text(""),
            description: None,
            description_hash: None,
            payment_hash: copy_text(payment_hash),
            amount: claimable_amount_msat,
            created_at: now,
            expires_at: now,
            settle_deadline: match claim_deadline {
                Some(height) => height,
                None => 0,
            },
        },
    )
}

/// The text of a peer, empty where it is not known.
pub open spec fn peer_text(id: Option<NodeId>) -> Seq<char> {
    match id {
        Some(id) => node_text(id),
        None => ""@,
    }
}

fn text_of_peer(id: &Option<NodeId>) -> (out: String)
    ensures
        out@ == peer_text(*id),
{
    match id {
        Some(id) => id.to_string(),
        None => copy_text(""),
    }
}

/// The first channel with the given id.
pub open spec fn channel_named(
    channels: Seq<LdkChannelInfo<Seq<char>>>,
    id: Seq<char>,
) -> Option<LdkChannelInfo<Seq<char>>>
    decreases channels.len(),
{
    if channels.len() == 0 {
        None
    } else if channels[0].id == id {
        Some(channels[0])
    } else {
        channel_named(channels.skip(1), id)
    }
}

fn find_channel<'a>(channels: &'a Vec<LdkChannelInfo>, id: &str) -> (out: Option<
    &'a LdkChannelInfo,
>)
    ensures
        option_view(
            match out {
                Some(c) => Some(*c),
                None => None,
            },
        ) == channel_named(views(channels@), id@),
{
    let ghost all = views(channels@);
    let mut i: usize = 0;
    assert(all.skip(0) =~= all);
    while i < channels.len()
        invariant
            all == views(channels@),
            i <= channels.len(),
            channel_named(all, id@) == channel_named(all.skip(i as int), id@),
        decreases channels.len() - i,
    {
        proof {
            assert(all.skip(i as int)[0] == channels@[i as int]@);
            assert(all.skip(i as int).skip(1) =~= all.skip(i + 1));
        }
        if same_text(channels[i].id.as_str(), id) {
            return Some(&channels[i]);
        }
        i += 1;
    }
    None
}

/// What is told of a channel that can be used. What the list of channels does
/// not tell of it is left empty.
pub open spec fn opened_notice(
    channels: Seq<LdkChannelInfo<Seq<char>>>,
    id: Seq<char>,
    counterparty: Option<NodeId>,
    funding_txid: Option<Seq<char>>,
) -> NncNotificationView {
    let channel = channel_named(channels, id);
    NncNotification::ChannelOpened(
        ChannelOpenedNotification {
            id,
            short_channel_id: match channel {
                Some(c) => c.short_channel_id,
                None => None,
            },
            peer_pubkey: peer_text(counterparty),
            capacity: match channel {
                Some(c) => c.capacity,
                None => 0,
            },
            local_balance: match channel {
                Some(c) => c.local_balance,
                None => 0,
            },
            remote_balance: match channel {
                Some(c) => c.remote_balance,
                None => 0,
            },
            funding_txid: match funding_txid {
                Some(txid) => txid,
                None => ""@,
            },
            is_private: match channel {
                Some(c) => c.is_private,
                None => false,
            },
        },
    )
}

/// What is told of a channel that can be used.
pub fn build_channel_opened_notification(
    channels: &Vec<LdkChannelInfo>,
    channel_id: &str,
    counterparty: &Option<NodeId>,
    funding_txid: &Option<String>,
) -> (out: NncNotification)
    ensures
        out@ == opened_notice(views(channels@), channel_id@, *counterparty, opt_text(*funding_txid)),
{
    let id: String = copy_text(channel_id);
    let peer_pubkey: String = text_of_peer(counterparty);
    let funding_txid: String = match funding_txid {
        Some(txid) => copy_text(txid.as_str()),
        None => copy_text(""),
    };
    match find_channel(channels, channel_id) {
        Some(c) => NncNotification::ChannelOpened(
            ChannelOpenedNotification {
                id,
                short_channel_id: copy_opt_text(&c.short_channel_id),
                peer_pubkey,
                capacity: c.capacity,
                local_balance: c.local_balance,
                remote_balance: c.remote_balance,
                funding_txid,
                is_private: c.is_private,
            },
        ),
        None => NncNotification::ChannelOpened(
            ChannelOpenedNotification {
                id,
                short_channel_id: None,
                peer_pubkey,
                capacity: 0,
                local_balance: 0,
                remote_balance: 0,
                funding_txid,
                is_private: false,
            },
        ),
    }
}

/// How a channel was closed.
pub open spec fn close_type(reason: Option<CloseReason>) -> Seq<char> {
    match reason {
        Some(CloseReason::CounterpartyForceClosed) | Some(CloseReason::HolderForceClosed) =>
            "force"@,
        Some(CloseReason::LegacyCooperativeClosure)
        | Some(CloseReason::LocallyInitiatedCooperativeClosure)
        | Some(CloseReason::CounterpartyInitiatedCooperativeClosure) => "cooperative"@,
        Some(CloseReason::Another) | None => "unknown"@,
    }
}

/// What is told of a channel that is gone.
pub open spec fn closed_notice(
    id: Seq<char>,
    counterparty: Option<NodeId>,
    reason: Option<CloseReason>,
) -> NncNotificationView {
    NncNotification::ChannelClosed(
        ChannelClosedNotification {
            id,
            short_channel_id: None,
            peer_pubkey: peer_text(counterparty),
            capacity: 0,
            closing_txid: None,
            close_type: close_type(reason),
        },
    )
}

/// What is told of a channel that is gone.
pub fn build_channel_closed_notification(
    channel_id: &str,
    counterparty: &Option<NodeId>,
    reason: Option<CloseReason>,
) -> (out: NncNotification)
    ensures
        out@ == closed_notice(channel_id@, *counterparty, reason),
{
    let close_type: &str = match reason {
        Some(CloseReason::CounterpartyForceClosed) | Some(CloseReason::HolderForceClosed) =>
            "force",
        Some(CloseReason::LegacyCooperativeClosure)
        | Some(CloseReason::LocallyInitiatedCooperativeClosure)
        | Some(CloseReason::CounterpartyInitiatedCooperativeClosure) => "cooperative",
        Some(CloseReason::Another) | None => "unknown",
    };
    NncNotification::ChannelClosed(
        ChannelClosedNotification {
            id: copy_text(channel_id),
            short_channel_id: None,
            peer_pubkey: text_of_peer(counterparty),
            capacity: 0,
            closing_txid: None,
            close_type: copy_text(close_type),
        },
    )
}

/// Whom an event of the node is told to, if to anyone. `Halt` is for a channel
/// whose capacity does not fit.
#[derive(Debug)]
pub enum Notice<W = Notification, N = NncNotification> {
    Wallet(W),
    Node(N),
    Nobody,
    Halt,
}

/// A [`Notice`] over sequences.
pub type NoticeView = Notice<NotificationView, NncNotificationView>;

impl View for Notice {
    type V = NoticeView;

    open spec fn view(&self) -> NoticeView {
        match self {
            Notice::Wallet(w) => Notice::Wallet(w@),
            Notice::Node(n) => Notice::Node(n@),
            Notice::Nobody => Notice::Nobody,
            Notice::Halt => Notice::Halt,
        }
    }
}

/// What is told of an event of the node.
pub open spec fn notice_of(event: NodeEvent, channels: Seq<ChannelDetails>, now: u64) -> NoticeView {
    match event {
        NodeEvent::PaymentReceived { payment_hash, amount_msat } => Notice::Wallet(
            received(hex_text(payment_hash@), amount_msat, now),
        ),
        NodeEvent::PaymentSuccessful { payment_hash, fee_paid_msat } => Notice::Wallet(
            sent(hex_text(payment_hash@), fee_paid_msat, now),
        ),
        NodeEvent::PaymentClaimable { payment_hash, claimable_amount_msat, claim_deadline } =>
            Notice::Wallet(
            held(hex_text(payment_hash@), claimable_amount_msat, claim_deadline, now),
        ),
        NodeEvent::ChannelReady { channel_id, counterparty_node_id, funding_txid } => if capacities_fit(
            channels,
        ) {
            Notice::Node(
                opened_notice(
                    channel_infos(channels),
                    channel_id@,
                    counterparty_node_id,
                    opt_text(funding_txid),
                ),
            )
        } else {
            Notice::Halt
        },
        NodeEvent::ChannelClosed { channel_id, counterparty_node_id, reason } => Notice::Node(
            closed_notice(channel_id@, counterparty_node_id, reason),
        ),
        NodeEvent::PaymentForwarded { .. } | NodeEvent::Another => Notice::Nobody,
    }
}

/// The forwards after an event of the node. What came in is what went out and
/// the fee.
pub open spec fn forwards_after(
    event: NodeEvent,
    forwards: Seq<ForwardingView>,
    now: u64,
) -> Seq<ForwardingView> {
    match event {
        NodeEvent::PaymentForwarded {
            prev_channel_id,
            next_channel_id,
            total_fee_earned_msat,
            outbound_amount_forwarded_msat,
        } => {
            let fee = or_zero(total_fee_earned_msat);
            let outgoing = or_zero(outbound_amount_forwarded_msat);
            forwards.push(
                ForwardingView {
                    incoming_channel_id: prev_channel_id@,
                    outgoing_channel_id: next_channel_id@,
                    incoming_amount: if outgoing + fee > u64::MAX {
                        u64::MAX
                    } else {
                        (outgoing + fee) as u64
                    },
                    outgoing_amount: outgoing,
                    fee_earned: fee,
                    settled_at: now,
                },
            )
        },
        _ => forwards,
    }
}

/// Records an event of the node, and says what is told of it. `channels` are
/// those that the node has, `now` is the time in seconds since the epoch.
pub fn handle_ldk_event(
    ldk_service: &LdkService,
    forwards: &mut ForwardingStore,
    event: &NodeEvent,
    channels: &Vec<ChannelDetails>,
    now: u64,
) -> (out: Notice)
    ensures
        out@ == notice_of(*event, channels@, now),
        final(forwards)@ == forwards_after(*event, old(forwards)@, now),
{
    match event {
        NodeEvent::PaymentReceived { payment_hash, amount_msat } => Notice::Wallet(
            build_payment_received_notification(
                hex_string(payment_hash).as_str(),
                *amount_msat,
                now,
            ),
        ),
        NodeEvent::PaymentSuccessful { payment_hash, fee_paid_msat } => Notice::Wallet(
            build_payment_sent_notification(
                hex_string(payment_hash).as_str(),
                *fee_paid_msat,
                now,
            ),
        ),
        NodeEvent::PaymentClaimable { payment_hash, claimable_amount_msat, claim_deadline } =>
            Notice::Wallet(
            build_hold_invoice_accepted_notification(
                hex_string(payment_hash).as_str(),
                *claimable_amount_msat,
                *claim_deadline,
                now,
            ),
        ),
        NodeEvent::ChannelReady { channel_id, counterparty_node_id, funding_txid } => {
            if !check_capacities(channels) {
                return Notice::Halt;
            }
            let infos: Vec<LdkChannelInfo> = ldk_service.list_channels(channels);
            Notice::Node(
                build_channel_opened_notification(
                    &infos,
                    channel_id.as_str(),
                    counterparty_node_id,
                    funding_txid,
                ),
            )
        },
        NodeEvent::ChannelClosed { channel_id, counterparty_node_id, reason } => Notice::Node(
            build_channel_closed_notification(channel_id.as_str(), counterparty_node_id, *reason),
        ),
        NodeEvent::PaymentForwarded {
            prev_channel_id,
            next_channel_id,
            total_fee_earned_msat,
            outbound_amount_forwarded_msat,
        } => {
            let fee: u64 = figure_or_zero(*total_fee_earned_msat);
            let outgoing: u64 = figure_or_zero(*outbound_amount_forwarded_msat);
            record_forward(
                forwards,
                ForwardingEntry {
                    incoming_channel_id: copy_text(prev_channel_id.as_str()),
                    outgoing_channel_id: copy_text(next_channel_id.as_str()),
                    incoming_amount: outgoing.saturating_add(fee),
                    outgoing_amount: outgoing,
                    fee_earned: fee,
                    settled_at: now,
                },
            );
            Notice::Nobody
        },
        NodeEvent::Another => Notice::Nobody,
    }
}

} // verus!
