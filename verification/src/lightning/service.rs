//! The operations of the service: what each asks the node for, and what it
//! makes of the answers.

use vstd::prelude::*;
#[allow(unused_imports)]
use vstd::utf8::encode_utf8;

#[allow(unused_imports)]
use crate::lightning::graph::node_text;
use crate::lightning::graph::NodeId;
#[allow(unused_imports)]
use crate::lightning::hex::{all_pairs_ok, hex_round_trip, pair_bytes, pairs_aligned};
use crate::lightning::hex::{decode_hex, hex_string};
use crate::lightning::ldk_service::{LdkBalance, LdkNodeStatus, LdkServiceError, Network};
use crate::lightning::node::{ChannelDetails, NodeCall};
#[allow(unused_imports)]
use crate::lightning::parse::{
    address_parse, invoice_parse, network_check, offer_parse, onchain_parse, pubkey_parse,
    MAX_DESCRIPTION_BYTES,
};
use crate::lightning::parse::{
    make_description, parse_address, parse_invoice, parse_offer, parse_onchain, parse_pubkey,
    require_network,
};
#[allow(unused_imports)]
use crate::text::{opt_str, opt_text};
use crate::text::{copy_text, join, same_text};
#[allow(unused_imports)]
use crate::views::result_view;

verus! {

/// The node that the service runs.
#[derive(Debug)]
pub struct LdkService {
    node_id: NodeId,
    network: Network,
}

/// A request to the node, over sequences.
pub type CallView = NodeCall<Seq<char>, Seq<NodeId>>;

/// An error of the service, over sequences.
pub type ErrorView = LdkServiceError<Seq<char>>;

/// The name of a network.
pub open spec fn network_text(network: Network) -> Seq<char> {
    match network {
        Network::Regtest => "regtest"@,
        Network::Testnet => "testnet"@,
        Network::Bitcoin => "bitcoin"@,
        Network::Signet => "signet"@,
        Network::Testnet4 => "unknown"@,
    }
}

/// The balances in millisatoshis, or the satoshis that are too many for it.
pub open spec fn balance_of(onchain_sats: u64, lightning_sats: u64) -> Result<LdkBalance, ErrorView> {
    if onchain_sats * 1000 > u64::MAX {
        Err(LdkServiceError::BalanceOverflow { sats: onchain_sats })
    } else if lightning_sats * 1000 > u64::MAX {
        Err(LdkServiceError::BalanceOverflow { sats: lightning_sats })
    } else if onchain_sats * 1000 + lightning_sats * 1000 > u64::MAX {
        Err(LdkServiceError::BalanceOverflow { sats: (onchain_sats + lightning_sats) as u64 })
    } else {
        Ok(
            LdkBalance {
                total_msat: (onchain_sats * 1000 + lightning_sats * 1000) as u64,
                lightning_msat: (lightning_sats * 1000) as u64,
                onchain_msat: (onchain_sats * 1000) as u64,
            },
        )
    }
}

/// The balance is the sum of its two parts, each a thousand times its satoshis.
pub proof fn balances_add_up(onchain_sats: u64, lightning_sats: u64)
    ensures
        balance_of(onchain_sats, lightning_sats) matches Ok(b) ==> {
            &&& b.total_msat == b.lightning_msat + b.onchain_msat
            &&& b.lightning_msat == lightning_sats * 1000
            &&& b.onchain_msat == onchain_sats * 1000
        },
{
}

/// The text, or another if there is none.
pub open spec fn text_or(o: Option<Seq<char>>, other: Seq<char>) -> Seq<char> {
    match o {
        Some(s) => s,
        None => other,
    }
}

/// What a request for an invoice asks the node for.
pub open spec fn invoice_call(
    amount_msat: u64,
    description: Option<Seq<char>>,
    description_hash: Option<Seq<char>>,
    expiry_secs: Option<u64>,
) -> Result<CallView, ErrorView> {
    let text = text_or(description, "nwc invoice"@);
    if amount_msat == 0 {
        Err(LdkServiceError::InvalidAmount(amount_msat))
    } else if description_hash is Some {
        Err(LdkServiceError::InvalidInvoiceRequest("description_hash is not supported yet"@))
    } else if encode_utf8(text).len() > MAX_DESCRIPTION_BYTES {
        Err(
            LdkServiceError::InvalidInvoiceRequest(
                "The supplied description string was longer than 639 bytes"@,
            ),
        )
    } else if expiry_secs matches Some(e) && e > u32::MAX {
        Err(LdkServiceError::InvalidInvoiceRequest("expiry exceeds u32::MAX"@))
    } else {
        Ok(
            NodeCall::ReceiveBolt11 {
                amount_msat,
                description: text,
                expiry_secs: match expiry_secs {
                    Some(e) => e as u32,
                    None => 3600,
                },
            },
        )
    }
}

/// What a payment of an invoice asks the node for.
pub open spec fn pay_invoice_call(invoice: Seq<char>, amount_msat: Option<u64>) -> Result<
    CallView,
    ErrorView,
> {
    match invoice_parse(invoice) {
        Ok(_) => Ok(NodeCall::SendBolt11 { invoice, amount_msat }),
        Err(m) => Err(LdkServiceError::InvalidInvoice(m)),
    }
}

/// What a payment without an invoice asks the node for.
pub open spec fn keysend_call(dest: Seq<char>, amount_msat: u64) -> Result<CallView, ErrorView> {
    if amount_msat == 0 {
        Err(LdkServiceError::InvalidAmount(amount_msat))
    } else {
        match pubkey_parse(dest) {
            Ok(node_id) => Ok(NodeCall::SendKeysend { amount_msat, node_id }),
            Err(m) => Err(LdkServiceError::InvalidPubkey(m)),
        }
    }
}

/// What opening a channel asks the node for.
pub open spec fn open_channel_call(
    pubkey: Seq<char>,
    address: Seq<char>,
    amount_sats: u64,
    push_msat: Option<u64>,
) -> Result<CallView, ErrorView> {
    match pubkey_parse(pubkey) {
        Ok(node_id) => match address_parse(address) {
            Ok(address) => Ok(NodeCall::OpenChannel { node_id, address, amount_sats, push_msat }),
            Err(m) => Err(LdkServiceError::ChannelFailed(m)),
        },
        Err(m) => Err(LdkServiceError::InvalidPubkey(m)),
    }
}

/// What connecting to a peer asks the node for.
pub open spec fn connect_call(pubkey: Seq<char>, address: Seq<char>) -> Result<CallView, ErrorView> {
    match pubkey_parse(pubkey) {
        Ok(node_id) => match address_parse(address) {
            Ok(address) => Ok(NodeCall::ConnectPeer { node_id, address }),
            Err(m) => Err(LdkServiceError::PeerFailed(m)),
        },
        Err(m) => Err(LdkServiceError::InvalidPubkey(m)),
    }
}

/// What disconnecting from a peer asks the node for.
pub open spec fn disconnect_call(pubkey: Seq<char>) -> Result<CallView, ErrorView> {
    match pubkey_parse(pubkey) {
        Ok(node_id) => Ok(NodeCall::DisconnectPeer { node_id }),
        Err(m) => Err(LdkServiceError::InvalidPubkey(m)),
    }
}

/// The first channel with the given id.
pub open spec fn channel_with_id(channels: Seq<ChannelDetails>, id: Seq<char>) -> Option<
    ChannelDetails,
>
    decreases channels.len(),
{
    if channels.len() == 0 {
        None
    } else if channels[0].channel_id@ == id {
        Some(channels[0])
    } else {
        channel_with_id(channels.skip(1), id)
    }
}

/// The error for an unknown channel.
pub open spec fn channel_not_found(id: Seq<char>) -> ErrorView {
    LdkServiceError::ChannelFailed("channel not found: "@ + id)
}

/// What closing a channel asks the node for.
pub open spec fn close_channel_call(
    channels: Seq<ChannelDetails>,
    id: Seq<char>,
    force: bool,
) -> Result<CallView, ErrorView> {
    match channel_with_id(channels, id) {
        Some(c) => if force {
            Ok(
                NodeCall::ForceCloseChannel {
                    user_channel_id: c.user_channel_id,
                    counterparty: c.counterparty,
                    reason: "closed via control API"@,
                },
            )
        } else {
            Ok(
                NodeCall::CloseChannel {
                    user_channel_id: c.user_channel_id,
                    counterparty: c.counterparty,
                },
            )
        },
        None => Err(channel_not_found(id)),
    }
}

/// What changing the fees of a channel asks the node for. A fee that is not
/// given stays as it is.
pub open spec fn set_fees_call(
    channels: Seq<ChannelDetails>,
    id: Seq<char>,
    base_fee_msat: Option<u32>,
    fee_rate: Option<u32>,
) -> Result<CallView, ErrorView> {
    match channel_with_id(channels, id) {
        Some(c) => Ok(
            NodeCall::UpdateChannelFees {
                user_channel_id: c.user_channel_id,
                counterparty: c.counterparty,
                base_fee_msat: match base_fee_msat {
                    Some(base) => base,
                    None => c.forwarding_fee_base_msat,
                },
                fee_rate: match fee_rate {
                    Some(rate) => rate,
                    None => c.forwarding_fee_proportional_millionths,
                },
            },
        ),
        None => Err(channel_not_found(id)),
    }
}

/// What an on-chain payment asks the node for.
pub open spec fn pay_onchain_call(
    address: Seq<char>,
    network: Network,
    amount_sats: u64,
) -> Result<CallView, ErrorView> {
    match onchain_parse(address) {
        Ok(parsed) => match network_check(parsed, network) {
            Ok(checked) => Ok(NodeCall::SendOnchain { address: checked, amount_sats }),
            Err(m) => Err(LdkServiceError::InvalidAddress(m)),
        },
        Err(m) => Err(LdkServiceError::InvalidAddress(m)),
    }
}

/// What a payment of an offer asks the node for.
pub open spec fn pay_offer_call(offer: Seq<char>, payer_note: Option<Seq<char>>) -> Result<
    CallView,
    ErrorView,
> {
    match offer_parse(offer) {
        Ok(_) => Ok(NodeCall::SendOffer { offer, payer_note }),
        Err(m) => Err(LdkServiceError::OfferFailed("invalid offer: "@ + m)),
    }
}

/// What the search for a payment by its hash asks the node for.
pub open spec fn find_by_hash_call(hash: Seq<char>) -> Result<CallView, ErrorView> {
    let b = encode_utf8(hash);
    if b.len() % 2 != 0 {
        Err(
            LdkServiceError::PaymentNotFound(
                "invalid payment hash hex: "@ + "odd-length hex string"@,
            ),
        )
    } else if !all_pairs_ok(b) {
        Err(
            LdkServiceError::PaymentNotFound(
                "invalid payment hash hex: "@ + "invalid digit found in string"@,
            ),
        )
    } else if b.len() != 64 {
        Err(LdkServiceError::PaymentNotFound("payment hash must be 32 bytes"@))
    } else {
        Ok(NodeCall::FindPayment { id: array_of(pair_bytes(b)) })
    }
}

/// The 32 bytes as an array.
pub open spec fn array_of(bytes: Seq<u8>) -> [u8; 32] {
    choose|a: [u8; 32]| a@ == bytes
}

/// What the search for a payment by its invoice asks the node for.
pub open spec fn find_by_invoice_call(invoice: Seq<char>) -> Result<CallView, ErrorView> {
    match invoice_parse(invoice) {
        Ok(hash) => Ok(NodeCall::FindPayment { id: hash }),
        Err(m) => Err(LdkServiceError::InvalidInvoice(m)),
    }
}

impl LdkService {
    /// The id of the node.
    pub closed spec fn id(&self) -> NodeId {
        self.node_id
    }

    /// The network of the node.
    pub closed spec fn net(&self) -> Network {
        self.network
    }

    /// The service over a node that runs on the given network.
    pub fn from_node(node_id: NodeId, network: Network) -> (out: LdkService)
        ensures
            out.id() == node_id,
            out.net() == network,
    {
        LdkService { node_id, network }
    }

    /// The id of the node.
    pub fn own_id(&self) -> (out: NodeId)
        ensures
            out == self.id(),
    {
        self.node_id
    }

    /// The public key of the node.
    pub fn node_id(&self) -> (out: String)
        ensures
            out@ == node_text(self.id()),
    {
        self.node_id.to_string()
    }

    /// How far the node has followed the chain: to the block of the given height.
    pub fn status(&self, height: u32) -> (out: LdkNodeStatus)
        ensures
            out.latest_best_block_height == height,
    {
        LdkNodeStatus { latest_best_block_height: height }
    }

    /// The name of the network.
    pub fn network(&self) -> (out: &'static str)
        ensures
            out@ == network_text(self.net()),
    {
        match self.network {
            Network::Regtest => "regtest",
            Network::Testnet => "testnet",
            Network::Bitcoin => "bitcoin",
            Network::Signet => "signet",
            Network::Testnet4 => "unknown",
        }
    }

    /// What came of bringing the wallets up to date with the chain.
    pub fn sync_wallets(&self, outcome: Result<(), String>) -> (out: Result<(), LdkServiceError>)
        ensures
            match outcome {
                Ok(_) => out is Ok,
                Err(m) => out is Err && out->Err_0@ == LdkServiceError::SyncFailed(m@),
            },
    {
        match outcome {
            Ok(_) => Ok(()),
            Err(m) => Err(LdkServiceError::SyncFailed(m)),
        }
    }

    /// What came of asking for a fresh on-chain address.
    pub fn new_onchain_address(&self, outcome: Result<String, String>) -> (out: Result<
        String,
        LdkServiceError,
    >)
        ensures
            match outcome {
                Ok(address) => out == Ok::<String, LdkServiceError>(address),
                Err(m) => out is Err && out->Err_0@ == LdkServiceError::AddressGenerationFailed(m@),
            },
    {
        match outcome {
            Ok(address) => Ok(address),
            Err(m) => Err(LdkServiceError::AddressGenerationFailed(m)),
        }
    }

    /// What came of stopping the node.
    pub fn stop(&self, outcome: Result<(), String>) -> (out: Result<(), LdkServiceError>)
        ensures
            match outcome {
                Ok(_) => out is Ok,
                Err(m) => out is Err && out->Err_0@ == LdkServiceError::StopFailed(m@),
            },
    {
        match outcome {
            Ok(_) => Ok(()),
            Err(m) => Err(LdkServiceError::StopFailed(m)),
        }
    }

    /// The balances in millisatoshis.
    pub fn get_balance(&self, onchain_sats: u64, lightning_sats: u64) -> (out: Result<
        LdkBalance,
        LdkServiceError,
    >)
        ensures
            match out {
                Ok(b) => balance_of(onchain_sats, lightning_sats) == Ok::<LdkBalance, ErrorView>(b),
                Err(e) => balance_of(onchain_sats, lightning_sats) == Err::<LdkBalance, ErrorView>(e@),
            },
    {
        let onchain_msat: u64 = match onchain_sats.checked_mul(1000) {
            Some(msat) => msat,
            None => {
                return Err(LdkServiceError::BalanceOverflow { sats: onchain_sats });
            },
        };
        let lightning_msat: u64 = match lightning_sats.checked_mul(1000) {
            Some(msat) => msat,
            None => {
                return Err(LdkServiceError::BalanceOverflow { sats: lightning_sats });
            },
        };
        match onchain_msat.checked_add(lightning_msat) {
            Some(total_msat) => Ok(LdkBalance { total_msat, lightning_msat, onchain_msat }),
            None => Err(
                LdkServiceError::BalanceOverflow { sats: onchain_sats + lightning_sats },
            ),
        }
    }

    /// The whole balance in millisatoshis.
    pub fn get_balance_msat(&self, onchain_sats: u64, lightning_sats: u64) -> (out: Result<
        u64,
        LdkServiceError,
    >)
        ensures
            match out {
                Ok(total) => balance_of(onchain_sats, lightning_sats) matches Ok(b)
                    && b.total_msat == total,
                Err(e) => balance_of(onchain_sats, lightning_sats) == Err::<LdkBalance, ErrorView>(e@),
            },
    {
        match self.get_balance(onchain_sats, lightning_sats) {
            Ok(b) => Ok(b.total_msat),
            Err(e) => Err(e),
        }
    }

    /// Asks for an invoice.
    pub fn make_invoice(
        &self,
        amount_msat: u64,
        description: Option<&str>,
        description_hash: Option<&str>,
        expiry_secs: Option<u64>,
    ) -> (out: Result<NodeCall, LdkServiceError>)
        ensures
            result_view(out) == invoice_call(
                amount_msat,
                opt_str(description),
                opt_str(description_hash),
                expiry_secs,
            ),
    {
        if amount_msat == 0 {
            return Err(LdkServiceError::InvalidAmount(amount_msat));
        }
        if description_hash.is_some() {
            return Err(
                LdkServiceError::InvalidInvoiceRequest(
                    copy_text("description_hash is not supported yet"),
                ),
            );
        }
        let text: String = match description {
            Some(d) => copy_text(d),
            None => copy_text("nwc invoice"),
        };
        let description: String = match make_description(text) {
            Ok(d) => d,
            Err(m) => {
                return Err(LdkServiceError::InvalidInvoiceRequest(m));
            },
        };
        let expiry_secs: u32 = match expiry_secs {
            Some(e) => {
                if e > u32::MAX as u64 {
                    return Err(
                        LdkServiceError::InvalidInvoiceRequest(
                            copy_text("expiry exceeds u32::MAX"),
                        ),
                    );
                }
                e as u32
            },
            None => 3600,
        };
        Ok(NodeCall::ReceiveBolt11 { amount_msat, description, expiry_secs })
    }

    /// Asks for the payment of an invoice.
    pub fn pay_invoice(&self, invoice_str: &str, amount_msat: Option<u64>) -> (out: Result<
        NodeCall,
        LdkServiceError,
    >)
        ensures
            result_view(out) == pay_invoice_call(invoice_str@, amount_msat),
    {
        match parse_invoice(invoice_str) {
            Ok(_) => Ok(NodeCall::SendBolt11 { invoice: copy_text(invoice_str), amount_msat }),
            Err(m) => Err(LdkServiceError::InvalidInvoice(m)),
        }
    }

    /// Asks for a payment without an invoice.
    pub fn pay_keysend(&self, dest_pubkey: &str, amount_msat: u64) -> (out: Result<
        NodeCall,
        LdkServiceError,
    >)
        ensures
            result_view(out) == keysend_call(dest_pubkey@, amount_msat),
    {
        if amount_msat == 0 {
            return Err(LdkServiceError::InvalidAmount(amount_msat));
        }
        match parse_pubkey(dest_pubkey) {
            Ok(node_id) => Ok(NodeCall::SendKeysend { amount_msat, node_id }),
            Err(m) => Err(LdkServiceError::InvalidPubkey(m)),
        }
    }

    /// Asks for a new channel.
    pub fn open_channel(
        &self,
        counterparty_pubkey: &str,
        counterparty_addr: &str,
        channel_amount_sats: u64,
        push_to_counterparty_msat: Option<u64>,
    ) -> (out: Result<NodeCall, LdkServiceError>)
        ensures
            result_view(out) == open_channel_call(
                counterparty_pubkey@,
                counterparty_addr@,
                channel_amount_sats,
                push_to_counterparty_msat,
            ),
    {
        match parse_pubkey(counterparty_pubkey) {
            Ok(node_id) => match parse_address(counterparty_addr) {
                Ok(address) => Ok(
                    NodeCall::OpenChannel {
                        node_id,
                        address,
                        amount_sats: channel_amount_sats,
                        push_msat: push_to_counterparty_msat,
                    },
                ),
                Err(m) => Err(LdkServiceError::ChannelFailed(m)),
            },
            Err(m) => Err(LdkServiceError::InvalidPubkey(m)),
        }
    }

    /// Asks for a connection to a peer.
    pub fn connect_peer(&self, counterparty_pubkey: &str, counterparty_addr: &str) -> (out: Result<
        NodeCall,
        LdkServiceError,
    >)
        ensures
            result_view(out) == connect_call(counterparty_pubkey@, counterparty_addr@),
    {
        match parse_pubkey(counterparty_pubkey) {
            Ok(node_id) => match parse_address(counterparty_addr) {
                Ok(address) => Ok(NodeCall::ConnectPeer { node_id, address }),
                Err(m) => Err(LdkServiceError::PeerFailed(m)),
            },
            Err(m) => Err(LdkServiceError::InvalidPubkey(m)),
        }
    }

    /// Asks for the end of a connection.
    pub fn disconnect_peer(&self, counterparty_pubkey: &str) -> (out: Result<
        NodeCall,
        LdkServiceError,
    >)
        ensures
            result_view(out) == disconnect_call(counterparty_pubkey@),
    {
        match parse_pubkey(counterparty_pubkey) {
            Ok(node_id) => Ok(NodeCall::DisconnectPeer { node_id }),
            Err(m) => Err(LdkServiceError::InvalidPubkey(m)),
        }
    }

    /// Asks for the end of a channel.
    pub fn close_channel(
        &self,
        channels: &Vec<ChannelDetails>,
        channel_id: &str,
        force: bool,
    ) -> (out: Result<NodeCall, LdkServiceError>)
        ensures
            result_view(out) == close_channel_call(channels@, channel_id@, force),
    {
        match find_channel(channels, channel_id) {
            Some(c) => if force {
                Ok(
                    NodeCall::ForceCloseChannel {
                        user_channel_id: c.user_channel_id,
                        counterparty: c.counterparty,
                        reason: copy_text("closed via control API"),
                    },
                )
            } else {
                Ok(
                    NodeCall::CloseChannel {
                        user_channel_id: c.user_channel_id,
                        counterparty: c.counterparty,
                    },
                )
            },
            None => Err(
                LdkServiceError::ChannelFailed(join("channel not found: ", channel_id)),
            ),
        }
    }

    /// Asks for new forwarding fees of a channel.
    pub fn set_channel_fees(
        &self,
        channels: &Vec<ChannelDetails>,
        channel_id: &str,
        base_fee_msat: Option<u32>,
        fee_rate: Option<u32>,
    ) -> (out: Result<NodeCall, LdkServiceError>)
        ensures
            result_view(out) == set_fees_call(channels@, channel_id@, base_fee_msat, fee_rate),
    {
        match find_channel(channels, channel_id) {
            Some(c) => Ok(
                NodeCall::UpdateChannelFees {
                    user_channel_id: c.user_channel_id,
                    counterparty: c.counterparty,
                    base_fee_msat: match base_fee_msat {
                        Some(base) => base,
                        None => c.forwarding_fee_base_msat,
                    },
                    fee_rate: match fee_rate {
                        Some(rate) => rate,
                        None => c.forwarding_fee_proportional_millionths,
                    },
                },
            ),
            None => Err(
                LdkServiceError::ChannelFailed(join("channel not found: ", channel_id)),
            ),
        }
    }

    /// Asks for an on-chain payment. The fee rate is left to the node.
    pub fn pay_onchain(&self, address: &str, amount_sats: u64, _feerate: Option<u64>) -> (out:
        Result<NodeCall, LdkServiceError>)
        ensures
            result_view(out) == pay_onchain_call(address@, self.net(), amount_sats),
    {
        let parsed: String = match parse_onchain(address) {
            Ok(a) => a,
            Err(m) => {
                return Err(LdkServiceError::InvalidAddress(m));
            },
        };
        match require_network(parsed.as_str(), self.network) {
            Ok(checked) => Ok(NodeCall::SendOnchain { address: checked, amount_sats }),
            Err(m) => Err(LdkServiceError::InvalidAddress(m)),
        }
    }

    /// Asks for an offer.
    pub fn make_offer(&self, amount_msat: u64, description: &str, expiry_secs: Option<u32>) -> (out:
        NodeCall)
        ensures
            out@ == (CallView::ReceiveOffer { amount_msat, description: description@, expiry_secs }),
    {
        NodeCall::ReceiveOffer { amount_msat, description: copy_text(description), expiry_secs }
    }

    /// Asks for the payment of an offer. The amount is left to the offer.
    pub fn pay_offer(
        &self,
        offer_str: &str,
        _amount: Option<u64>,
        payer_note: Option<String>,
    ) -> (out: Result<NodeCall, LdkServiceError>)
        ensures
            result_view(out) == pay_offer_call(offer_str@, opt_text(payer_note)),
    {
        match parse_offer(offer_str) {
            Ok(_) => Ok(NodeCall::SendOffer { offer: copy_text(offer_str), payer_note }),
            Err(m) => Err(LdkServiceError::OfferFailed(join("invalid offer: ", m.as_str()))),
        }
    }

    /// Asks for the payment with a hash.
    pub fn lookup_payment_by_hash(&self, payment_hash: &str) -> (out: Result<
        NodeCall,
        LdkServiceError,
    >)
        requires
            pairs_aligned(payment_hash@),
        ensures
            result_view(out) == find_by_hash_call(payment_hash@),
    {
        let bytes: Vec<u8> = match decode_hex(payment_hash) {
            Ok(b) => b,
            Err(m) => {
                return Err(
                    LdkServiceError::PaymentNotFound(join("invalid payment hash hex: ", m.as_str())),
                );
            },
        };
        if bytes.len() != 32 {
            return Err(LdkServiceError::PaymentNotFound(copy_text("payment hash must be 32 bytes")));
        }
        let mut id: [u8; 32] = [0; 32];
        let mut i: usize = 0;
        while i < 32
            invariant
                i <= 32,
                bytes.len() == 32,
                forall|k: int| 0 <= k < i ==> id@[k] == bytes@[k],
            decreases 32 - i,
        {
            id[i] = bytes[i];
            i += 1;
        }
        proof {
            assert(id@ =~= bytes@);
            assert(array_of(bytes@)@ == bytes@);
            assert(array_of(bytes@) =~= id);
        }
        Ok(NodeCall::FindPayment { id })
    }

    /// Asks for the payment of an invoice.
    pub fn lookup_payment_by_bolt11(&self, invoice_str: &str) -> (out: Result<
        NodeCall,
        LdkServiceError,
    >)
        ensures
            result_view(out) == find_by_invoice_call(invoice_str@),
    {
        let hash: [u8; 32] = match parse_invoice(invoice_str) {
            Ok(h) => h,
            Err(m) => {
                return Err(LdkServiceError::InvalidInvoice(m));
            },
        };
        let text: String = hex_string(hash.as_slice());
        proof {
            hex_round_trip(hash@);
            assert(array_of(hash@)@ == hash@);
            assert(array_of(hash@) =~= hash);
        }
        self.lookup_payment_by_hash(text.as_str())
    }
}

fn find_channel<'a>(channels: &'a Vec<ChannelDetails>, id: &str) -> (out: Option<
    &'a ChannelDetails,
>)
    ensures
        match out {
            Some(c) => channel_with_id(channels@, id@) == Some(*c),
            None => channel_with_id(channels@, id@) is None,
        },
{
    let mut i: usize = 0;
    assert(channels@.skip(0) =~= channels@);
    while i < channels.len()
        invariant
            i <= channels.len(),
            channel_with_id(channels@, id@) == channel_with_id(channels@.skip(i as int), id@),
        decreases channels.len() - i,
    {
        assert(channels@.skip(i as int)[0] == channels@[i as int]);
        assert(channels@.skip(i as int).skip(1) =~= channels@.skip(i + 1));
        if same_text(channels[i].channel_id.as_str(), id) {
            return Some(&channels[i]);
        }
        i += 1;
    }
    None
}

} // verus!
