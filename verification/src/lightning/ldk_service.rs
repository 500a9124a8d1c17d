//! What the service reports about the node, and how it is configured.
//!
//! The records hold texts of type `S` and lists of type `L`. In code these are
//! strings and vectors. In contracts they are sequences: the view of a record
//! is the same record over sequences.

use vstd::prelude::*;
use vstd::string::*;

#[allow(unused_imports)]
use crate::text::{decimal_text, opt_text, texts};
use crate::text::{decimal, join};
#[allow(unused_imports)]
use crate::views::views;

verus! {

/// A Bitcoin network.
#[derive(Debug, Clone, Copy, PartialEq, Eq, Structural)]
pub enum Network {
    Bitcoin,
    Testnet,
    Signet,
    Regtest,
    /// A second test network, on which the service does not run.
    Testnet4,
}

/// How the node is set up.
#[derive(Debug, Clone)]
pub struct LdkServiceConfig {
    pub network: String,
    pub bitcoind_rpc_host: String,
    pub bitcoind_rpc_port: u16,
    pub bitcoind_rpc_user: String,
    pub bitcoind_rpc_password: String,
    pub ldk_storage_dir: String,
    pub ldk_listen_addr: Option<String>,
    pub node_alias: Option<String>,
    /// Signer transport: "nostr"; anything else means the embedded signer.
    pub signer_transport: String,
    /// Nostr relay URL (needed for the "nostr" transport).
    pub signer_relay: Option<String>,
    /// The node's Nostr secret key in hex (needed for the "nostr" transport).
    pub signer_nsec: Option<String>,
    /// The remote signer's Nostr public key in hex (needed for the "nostr" transport).
    pub signer_pubkey: Option<String>,
}

/// Why the service could not be started.
#[derive(Debug)]
pub enum LdkServiceInitError<S = String> {
    InvalidNetwork { network: S },
    InvalidListeningAddress { address: S },
    InvalidConfig(S),
    BuildFailed(S),
    StartFailed(S),
}

impl View for LdkServiceInitError {
    type V = LdkServiceInitError<Seq<char>>;

    open spec fn view(&self) -> LdkServiceInitError<Seq<char>> {
        match *self {
            LdkServiceInitError::InvalidNetwork { network } => LdkServiceInitError::InvalidNetwork {
                network: network@,
            },
            LdkServiceInitError::InvalidListeningAddress { address } =>
                LdkServiceInitError::InvalidListeningAddress { address: address@ },
            LdkServiceInitError::InvalidConfig(m) => LdkServiceInitError::InvalidConfig(m@),
            LdkServiceInitError::BuildFailed(m) => LdkServiceInitError::BuildFailed(m@),
            LdkServiceInitError::StartFailed(m) => LdkServiceInitError::StartFailed(m@),
        }
    }
}

/// The message that tells a start error.
pub open spec fn init_error_text(e: LdkServiceInitError<Seq<char>>) -> Seq<char> {
    match e {
        LdkServiceInitError::InvalidNetwork { network } =>
            "unsupported network for LdkService: "@ + network,
        LdkServiceInitError::InvalidListeningAddress { address } =>
            "invalid ldk_listen_addr: "@ + address,
        LdkServiceInitError::InvalidConfig(m) => "invalid LdkService config: "@ + m,
        LdkServiceInitError::BuildFailed(m) => "failed to build LdkService node: "@ + m,
        LdkServiceInitError::StartFailed(m) => "failed to start LdkService node: "@ + m,
    }
}

impl LdkServiceInitError {
    /// The message that tells the error.
    pub fn to_string(&self) -> (out: String)
        ensures
            out@ == init_error_text(self@),
    {
        match self {
            LdkServiceInitError::InvalidNetwork { network } => join(
                "unsupported network for LdkService: ",
                network.as_str(),
            ),
            LdkServiceInitError::InvalidListeningAddress { address } => join(
                "invalid ldk_listen_addr: ",
                address.as_str(),
            ),
            LdkServiceInitError::InvalidConfig(m) => join(
                "invalid LdkService config: ",
                m.as_str(),
            ),
            LdkServiceInitError::BuildFailed(m) => join(
                "failed to build LdkService node: ",
                m.as_str(),
            ),
            LdkServiceInitError::StartFailed(m) => join(
                "failed to start LdkService node: ",
                m.as_str(),
            ),
        }
    }
}

/// Why an operation of the node failed.
#[derive(Debug)]
pub enum LdkServiceError<S = String> {
    SyncFailed(S),
    AddressGenerationFailed(S),
    BalanceOverflow { sats: u64 },
    InvalidInvoice(S),
    InvalidInvoiceRequest(S),
    InvalidPubkey(S),
    InvalidAmount(u64),
    ChannelFailed(S),
    PeerFailed(S),
    PaymentFailed(S),
    PaymentNotFound(S),
    InvalidAddress(S),
    OfferFailed(S),
    StopFailed(S),
}

impl View for LdkServiceError {
    type V = LdkServiceError<Seq<char>>;

    open spec fn view(&self) -> LdkServiceError<Seq<char>> {
        match *self {
            LdkServiceError::SyncFailed(m) => LdkServiceError::SyncFailed(m@),
            LdkServiceError::AddressGenerationFailed(m) => LdkServiceError::AddressGenerationFailed(
                m@,
            ),
            LdkServiceError::BalanceOverflow { sats } => LdkServiceError::BalanceOverflow { sats },
            LdkServiceError::InvalidInvoice(m) => LdkServiceError::InvalidInvoice(m@),
            LdkServiceError::InvalidInvoiceRequest(m) => LdkServiceError::InvalidInvoiceRequest(m@),
            LdkServiceError::InvalidPubkey(m) => LdkServiceError::InvalidPubkey(m@),
            LdkServiceError::InvalidAmount(amount) => LdkServiceError::InvalidAmount(amount),
            LdkServiceError::ChannelFailed(m) => LdkServiceError::ChannelFailed(m@),
            LdkServiceError::PeerFailed(m) => LdkServiceError::PeerFailed(m@),
            LdkServiceError::PaymentFailed(m) => LdkServiceError::PaymentFailed(m@),
            LdkServiceError::PaymentNotFound(m) => LdkServiceError::PaymentNotFound(m@),
            LdkServiceError::InvalidAddress(m) => LdkServiceError::InvalidAddress(m@),
            LdkServiceError::OfferFailed(m) => LdkServiceError::OfferFailed(m@),
            LdkServiceError::StopFailed(m) => LdkServiceError::StopFailed(m@),
        }
    }
}

/// The message that tells an error of an operation.
pub open spec fn service_error_text(e: LdkServiceError<Seq<char>>) -> Seq<char> {
    match e {
        LdkServiceError::SyncFailed(m) => "ldk wallet sync failed: "@ + m,
        LdkServiceError::AddressGenerationFailed(m) => "ldk address generation failed: "@ + m,
        LdkServiceError::BalanceOverflow { sats } => "balance conversion overflow for sats="@
            + decimal_text(sats as nat),
        LdkServiceError::InvalidInvoice(m) => "invalid invoice: "@ + m,
        LdkServiceError::InvalidInvoiceRequest(m) => "invalid invoice request: "@ + m,
        LdkServiceError::InvalidPubkey(m) => "invalid pubkey: "@ + m,
        LdkServiceError::InvalidAmount(amount) => "invalid amount: "@ + decimal_text(amount as nat),
        LdkServiceError::ChannelFailed(m) => "channel operation failed: "@ + m,
        LdkServiceError::PeerFailed(m) => "peer operation failed: "@ + m,
        LdkServiceError::PaymentFailed(m) => "payment failed: "@ + m,
        LdkServiceError::PaymentNotFound(m) => "payment not found: "@ + m,
        LdkServiceError::InvalidAddress(m) => "invalid address: "@ + m,
        LdkServiceError::OfferFailed(m) => "offer operation failed: "@ + m,
        LdkServiceError::StopFailed(m) => "ldk node stop failed: "@ + m,
    }
}

impl LdkServiceError {
    /// The message that tells the error.
    pub fn to_string(&self) -> (out: String)
        ensures
            out@ == service_error_text(self@),
    {
        match self {
            LdkServiceError::SyncFailed(m) => join("ldk wallet sync failed: ", m.as_str()),
            LdkServiceError::AddressGenerationFailed(m) => join(
                "ldk address generation failed: ",
                m.as_str(),
            ),
            LdkServiceError::BalanceOverflow { sats } => join(
                "balance conversion overflow for sats=",
                decimal(*sats).as_str(),
            ),
            LdkServiceError::InvalidInvoice(m) => join("invalid invoice: ", m.as_str()),
            LdkServiceError::InvalidInvoiceRequest(m) => join(
                "invalid invoice request: ",
                m.as_str(),
            ),
            LdkServiceError::InvalidPubkey(m) => join("invalid pubkey: ", m.as_str()),
            LdkServiceError::InvalidAmount(amount) => join(
                "invalid amount: ",
                decimal(*amount).as_str(),
            ),
            LdkServiceError::ChannelFailed(m) => join("channel operation failed: ", m.as_str()),
            LdkServiceError::PeerFailed(m) => join("peer operation failed: ", m.as_str()),
            LdkServiceError::PaymentFailed(m) => join("payment failed: ", m.as_str()),
            LdkServiceError::PaymentNotFound(m) => join("payment not found: ", m.as_str()),
            LdkServiceError::InvalidAddress(m) => join("invalid address: ", m.as_str()),
            LdkServiceError::OfferFailed(m) => join("offer operation failed: ", m.as_str()),
            LdkServiceError::StopFailed(m) => join("ldk node stop failed: ", m.as_str()),
        }
    }
}

/// What the wallet holds, in millisatoshis.
#[derive(Debug, Clone, Copy, PartialEq, Eq)]
pub struct LdkBalance {
    pub total_msat: u64,
    pub lightning_msat: u64,
    pub onchain_msat: u64,
}

/// How far the node has followed the chain.
#[derive(Debug, Clone, Copy)]
pub struct LdkNodeStatus {
    pub latest_best_block_height: u32,
}

/// A payment that went through.
#[derive(Debug)]
pub struct LdkPaymentResult<S = String> {
    pub preimage: S,
    pub fees_paid_msat: Option<u64>,
}

impl View for LdkPaymentResult {
    type V = LdkPaymentResult<Seq<char>>;

    open spec fn view(&self) -> LdkPaymentResult<Seq<char>> {
        LdkPaymentResult { preimage: self.preimage@, fees_paid_msat: self.fees_paid_msat }
    }
}

/// An invoice that the node made.
#[derive(Debug)]
pub struct LdkInvoiceResult<S = String> {
    pub invoice: S,
    pub payment_hash: Option<S>,
    pub amount_msat: Option<u64>,
    pub expires_at: Option<u64>,
}

impl View for LdkInvoiceResult {
    type V = LdkInvoiceResult<Seq<char>>;

    open spec fn view(&self) -> LdkInvoiceResult<Seq<char>> {
        LdkInvoiceResult {
            invoice: self.invoice@,
            payment_hash: opt_text(self.payment_hash),
            amount_msat: self.amount_msat,
            expires_at: self.expires_at,
        }
    }
}

/// A channel of the node. Balances and capacity are in millisatoshis.
#[derive(Debug, Clone)]
pub struct LdkChannelInfo<S = String> {
    pub id: S,
    pub short_channel_id: Option<S>,
    pub peer_pubkey: S,
    pub state: S,
    pub is_private: bool,
    pub local_balance: u64,
    pub remote_balance: u64,
    pub capacity: u64,
    pub funding_txid: Option<S>,
    pub funding_output_index: Option<u32>,
}

impl View for LdkChannelInfo {
    type V = LdkChannelInfo<Seq<char>>;

    open spec fn view(&self) -> LdkChannelInfo<Seq<char>> {
        LdkChannelInfo {
            id: self.id@,
            short_channel_id: opt_text(self.short_channel_id),
            peer_pubkey: self.peer_pubkey@,
            state: self.state@,
            is_private: self.is_private,
            local_balance: self.local_balance,
            remote_balance: self.remote_balance,
            capacity: self.capacity,
            funding_txid: opt_text(self.funding_txid),
            funding_output_index: self.funding_output_index,
        }
    }
}

/// A peer of the node.
#[derive(Debug, Clone)]
pub struct LdkPeerInfo<S = String> {
    pub pubkey: S,
    pub address: S,
    pub connected: bool,
    pub alias: Option<S>,
    pub num_channels: usize,
}

impl View for LdkPeerInfo {
    type V = LdkPeerInfo<Seq<char>>;

    open spec fn view(&self) -> LdkPeerInfo<Seq<char>> {
        LdkPeerInfo {
            pubkey: self.pubkey@,
            address: self.address@,
            connected: self.connected,
            alias: opt_text(self.alias),
            num_channels: self.num_channels,
        }
    }
}

/// What the node asks for forwarding over a channel.
#[derive(Debug, Clone)]
pub struct LdkChannelFees<S = String> {
    pub id: S,
    pub short_channel_id: Option<S>,
    pub peer_pubkey: S,
    pub base_fee: u32,
    pub fee_rate: u32,
    pub min_htlc: u64,
    pub max_htlc: Option<u64>,
}

impl View for LdkChannelFees {
    type V = LdkChannelFees<Seq<char>>;

    open spec fn view(&self) -> LdkChannelFees<Seq<char>> {
        LdkChannelFees {
            id: self.id@,
            short_channel_id: opt_text(self.short_channel_id),
            peer_pubkey: self.peer_pubkey@,
            base_fee: self.base_fee,
            fee_rate: self.fee_rate,
            min_htlc: self.min_htlc,
            max_htlc: self.max_htlc,
        }
    }
}

/// A node of the network, as its peers announced it.
#[derive(Debug, Clone)]
pub struct NetworkNodeInfo<S = String, L = Vec<String>> {
    pub pubkey: S,
    pub alias: S,
    pub color: S,
    pub num_channels: usize,
    pub total_capacity: u64,
    pub addresses: L,
    pub last_update: u32,
}

impl View for NetworkNodeInfo {
    type V = NetworkNodeInfo<Seq<char>, Seq<Seq<char>>>;

    open spec fn view(&self) -> NetworkNodeInfo<Seq<char>, Seq<Seq<char>>> {
        NetworkNodeInfo {
            pubkey: self.pubkey@,
            alias: self.alias@,
            color: self.color@,
            num_channels: self.num_channels,
            total_capacity: self.total_capacity,
            addresses: texts(self.addresses@),
            last_update: self.last_update,
        }
    }
}

/// What one side of a channel asks for forwarding over it.
#[derive(Debug, Clone, Copy)]
pub struct NetworkChannelPolicy {
    pub base_fee: u32,
    pub fee_rate: u32,
    pub min_htlc: u64,
    pub max_htlc: u64,
    pub time_lock_delta: u16,
    pub disabled: bool,
    pub last_update: u32,
}

/// A channel of the network.
#[derive(Debug, Clone)]
pub struct NetworkChannelInfo<S = String> {
    pub short_channel_id: S,
    pub capacity: Option<u64>,
    pub node1_pubkey: S,
    pub node2_pubkey: S,
    pub node1_policy: Option<NetworkChannelPolicy>,
    pub node2_policy: Option<NetworkChannelPolicy>,
}

impl View for NetworkChannelInfo {
    type V = NetworkChannelInfo<Seq<char>>;

    open spec fn view(&self) -> NetworkChannelInfo<Seq<char>> {
        NetworkChannelInfo {
            short_channel_id: self.short_channel_id@,
            capacity: self.capacity,
            node1_pubkey: self.node1_pubkey@,
            node2_pubkey: self.node2_pubkey@,
            node1_policy: self.node1_policy,
            node2_policy: self.node2_policy,
        }
    }
}

/// Figures on the network. Sizes are in satoshis.
#[derive(Debug, Clone, Copy)]
pub struct NetworkStats {
    pub num_nodes: usize,
    pub num_channels: usize,
    pub total_capacity: u64,
    pub avg_channel_size: u64,
    pub max_channel_size: u64,
}

/// A step of a route: over `short_channel_id` to the node `pubkey`.
#[derive(Debug, Clone)]
pub struct RouteHop<S = String> {
    pub pubkey: S,
    pub short_channel_id: S,
    pub fee: u64,
    pub expiry: u16,
}

impl View for RouteHop {
    type V = RouteHop<Seq<char>>;

    open spec fn view(&self) -> RouteHop<Seq<char>> {
        RouteHop {
            pubkey: self.pubkey@,
            short_channel_id: self.short_channel_id@,
            fee: self.fee,
            expiry: self.expiry,
        }
    }
}

/// A route to a node. The fee is in millisatoshis, the time lock in blocks.
#[derive(Debug, Clone)]
pub struct FoundRoute<L = Vec<RouteHop>> {
    pub total_fee: u64,
    pub total_time_lock: u32,
    pub hops: L,
}

impl View for FoundRoute {
    type V = FoundRoute<Seq<RouteHop<Seq<char>>>>;

    open spec fn view(&self) -> FoundRoute<Seq<RouteHop<Seq<char>>>> {
        FoundRoute {
            total_fee: self.total_fee,
            total_time_lock: self.total_time_lock,
            hops: views(self.hops@),
        }
    }
}

} // verus!
