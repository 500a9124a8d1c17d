//! What the node is asked for, and what it answers.

use vstd::prelude::*;

use crate::lightning::graph::{GraphChannel, NodeId};
use crate::lightning::ldk_service::LdkInvoiceResult;
use crate::lightning::parse::NodeAddress;
use crate::lightning::payments::PaymentDetails;
#[allow(unused_imports)]
use crate::text::opt_text;

verus! {

/// The output that funds a channel.
#[derive(Debug, Clone)]
pub struct FundingOutput {
    pub txid: String,
    pub vout: u32,
}

/// A channel as the node reports it.
#[derive(Debug, Clone)]
pub struct ChannelDetails {
    pub channel_id: String,
    pub user_channel_id: u128,
    pub counterparty: NodeId,
    pub short_channel_id: Option<u64>,
    pub funding_txo: Option<FundingOutput>,
    pub is_channel_ready: bool,
    pub is_usable: bool,
    pub is_announced: bool,
    pub outbound_capacity_msat: u64,
    pub inbound_capacity_msat: u64,
    pub channel_value_sats: u64,
    pub forwarding_fee_base_msat: u32,
    pub forwarding_fee_proportional_millionths: u32,
    pub inbound_htlc_minimum_msat: u64,
    pub inbound_htlc_maximum_msat: Option<u64>,
}

/// A peer as the node reports it.
#[derive(Debug, Clone)]
pub struct PeerDetails {
    pub node_id: NodeId,
    pub address: String,
    pub is_connected: bool,
}

/// What a node of the network said of itself.
#[derive(Debug, Clone)]
pub struct Announcement {
    pub alias: String,
    pub rgb: [u8; 3],
    pub addresses: Vec<String>,
    pub last_update: u32,
}

/// A node of the network, with what the graph holds of each of its channels.
#[derive(Debug, Clone)]
pub struct GraphNode {
    pub id: NodeId,
    pub announcement: Option<Announcement>,
    pub channels: Vec<Option<GraphChannel>>,
}

/// A request to the node.
#[allow(inconsistent_fields)]
#[derive(Debug)]
pub enum NodeCall<S = String, L = Vec<NodeId>> {
    /// The height of the best block.
    Status,
    /// Bring the wallets up to date with the chain.
    SyncWallets,
    /// What the wallets hold.
    ListBalances,
    /// A fresh on-chain address.
    NewAddress,
    /// An invoice to be paid.
    ReceiveBolt11 { amount_msat: u64, description: S, expiry_secs: u32 },
    /// Pay an invoice, with the given amount if the invoice names none.
    SendBolt11 { invoice: S, amount_msat: Option<u64> },
    /// Pay a node without an invoice.
    SendKeysend { amount_msat: u64, node_id: NodeId },
    /// Pay an offer.
    SendOffer { offer: S, payer_note: Option<S> },
    /// After a pause, all payments, and the time since the given one was sent.
    WatchPayment { id: [u8; 32], pause_ms: u64 },
    /// Pay an on-chain address.
    SendOnchain { address: S, amount_sats: u64 },
    /// An offer to be paid.
    ReceiveOffer { amount_msat: u64, description: S, expiry_secs: Option<u32> },
    /// The payment with the given id.
    FindPayment { id: [u8; 32] },
    /// All payments.
    ListPayments,
    /// Open a channel.
    OpenChannel {
        node_id: NodeId,
        address: NodeAddress<S>,
        amount_sats: u64,
        push_msat: Option<u64>,
    },
    /// Connect to a peer, now and after a restart.
    ConnectPeer { node_id: NodeId, address: NodeAddress<S> },
    /// Disconnect from a peer.
    DisconnectPeer { node_id: NodeId },
    /// All channels of the node.
    ListChannels,
    /// All peers and channels of the node.
    ListPeers,
    /// Close a channel with the consent of the other side.
    CloseChannel { user_channel_id: u128, counterparty: NodeId },
    /// Close a channel without asking.
    ForceCloseChannel { user_channel_id: u128, counterparty: NodeId, reason: S },
    /// Change what the node asks for forwarding over a channel.
    UpdateChannelFees {
        user_channel_id: u128,
        counterparty: NodeId,
        base_fee_msat: u32,
        fee_rate: u32,
    },
    /// The ids of all nodes of the network.
    ListNodeIds,
    /// What the graph holds of each of the given nodes.
    ReadNodes { ids: L },
    /// The number of nodes, and what the graph holds of each channel.
    ReadNetwork,
    /// What the graph holds of a channel.
    ReadChannel { scid: u64 },
}

impl View for NodeCall {
    type V = NodeCall<Seq<char>, Seq<NodeId>>;

    open spec fn view(&self) -> NodeCall<Seq<char>, Seq<NodeId>> {
        match *self {
            NodeCall::Status => NodeCall::Status,
            NodeCall::SyncWallets => NodeCall::SyncWallets,
            NodeCall::ListBalances => NodeCall::ListBalances,
            NodeCall::NewAddress => NodeCall::NewAddress,
            NodeCall::ReceiveBolt11 { amount_msat, description, expiry_secs } =>
                NodeCall::ReceiveBolt11 { amount_msat, description: description@, expiry_secs },
            NodeCall::SendBolt11 { invoice, amount_msat } => NodeCall::SendBolt11 {
                invoice: invoice@,
                amount_msat,
            },
            NodeCall::SendKeysend { amount_msat, node_id } => NodeCall::SendKeysend {
                amount_msat,
                node_id,
            },
            NodeCall::SendOffer { offer, payer_note } => NodeCall::SendOffer {
                offer: offer@,
                payer_note: opt_text(payer_note),
            },
            NodeCall::WatchPayment { id, pause_ms } => NodeCall::WatchPayment { id, pause_ms },
            NodeCall::SendOnchain { address, amount_sats } => NodeCall::SendOnchain {
                address: address@,
                amount_sats,
            },
            NodeCall::ReceiveOffer { amount_msat, description, expiry_secs } =>
                NodeCall::ReceiveOffer { amount_msat, description: description@, expiry_secs },
            NodeCall::FindPayment { id } => NodeCall::FindPayment { id },
            NodeCall::ListPayments => NodeCall::ListPayments,
            NodeCall::OpenChannel { node_id, address, amount_sats, push_msat } =>
                NodeCall::OpenChannel { node_id, address: address@, amount_sats, push_msat },
            NodeCall::ConnectPeer { node_id, address } => NodeCall::ConnectPeer {
                node_id,
                address: address@,
            },
            NodeCall::DisconnectPeer { node_id } => NodeCall::DisconnectPeer { node_id },
            NodeCall::ListChannels => NodeCall::ListChannels,
            NodeCall::ListPeers => NodeCall::ListPeers,
            NodeCall::CloseChannel { user_channel_id, counterparty } => NodeCall::CloseChannel {
                user_channel_id,
                counterparty,
            },
            NodeCall::ForceCloseChannel { user_channel_id, counterparty, reason } =>
                NodeCall::ForceCloseChannel { user_channel_id, counterparty, reason: reason@ },
            NodeCall::UpdateChannelFees {
                user_channel_id,
                counterparty,
                base_fee_msat,
                fee_rate,
            } => NodeCall::UpdateChannelFees {
                user_channel_id,
                counterparty,
                base_fee_msat,
                fee_rate,
            },
            NodeCall::ListNodeIds => NodeCall::ListNodeIds,
            NodeCall::ReadNodes { ids } => NodeCall::ReadNodes { ids: ids@ },
            NodeCall::ReadNetwork => NodeCall::ReadNetwork,
            NodeCall::ReadChannel { scid } => NodeCall::ReadChannel { scid },
        }
    }
}

/// An offer that the node made.
#[derive(Debug)]
pub struct NewOffer {
    pub offer: String,
    pub id: [u8; 32],
}

/// An answer of the node. An error is told by its message.
#[allow(inconsistent_fields)]
#[derive(Debug)]
pub enum NodeReply {
    Height(u32),
    Done(Result<(), String>),
    Balances { spendable_onchain_sats: u64, total_lightning_sats: u64 },
    Text(Result<String, String>),
    Invoice(Result<LdkInvoiceResult, String>),
    Sent(Result<[u8; 32], String>),
    Watched { payments: Vec<PaymentDetails>, elapsed_nanos: u128 },
    Offer(Result<NewOffer, String>),
    Payment(Option<PaymentDetails>),
    Payments(Vec<PaymentDetails>),
    Channels(Vec<ChannelDetails>),
    Peers { peers: Vec<PeerDetails>, channels: Vec<ChannelDetails> },
    NodeIds(Vec<NodeId>),
    Nodes(Vec<Option<GraphNode>>),
    Network { num_nodes: usize, channels: Vec<Option<GraphChannel>> },
    Channel(Option<GraphChannel>),
}

/// The reply is of the kind that the request asks for.
pub open spec fn answers(call: NodeCall<Seq<char>, Seq<NodeId>>, reply: NodeReply) -> bool {
    match call {
        NodeCall::Status => reply is Height,
        NodeCall::SyncWallets => reply is Done,
        NodeCall::ListBalances => reply is Balances,
        NodeCall::NewAddress => reply is Text,
        NodeCall::ReceiveBolt11 { .. } => reply is Invoice,
        NodeCall::SendBolt11 { .. } => reply is Sent,
        NodeCall::SendKeysend { .. } => reply is Sent,
        NodeCall::SendOffer { .. } => reply is Sent,
        NodeCall::WatchPayment { .. } => reply is Watched,
        NodeCall::SendOnchain { .. } => reply is Text,
        NodeCall::ReceiveOffer { .. } => reply is Offer,
        NodeCall::FindPayment { .. } => reply is Payment,
        NodeCall::ListPayments => reply is Payments,
        NodeCall::OpenChannel { .. } => reply is Done,
        NodeCall::ConnectPeer { .. } => reply is Done,
        NodeCall::DisconnectPeer { .. } => reply is Done,
        NodeCall::ListChannels => reply is Channels,
        NodeCall::ListPeers => reply is Peers,
        NodeCall::CloseChannel { .. } => reply is Done,
        NodeCall::ForceCloseChannel { .. } => reply is Done,
        NodeCall::UpdateChannelFees { .. } => reply is Done,
        NodeCall::ListNodeIds => reply is NodeIds,
        NodeCall::ReadNodes { .. } => reply is Nodes,
        NodeCall::ReadNetwork => reply is Network,
        NodeCall::ReadChannel { .. } => reply is Channel,
    }
}

} // verus!
