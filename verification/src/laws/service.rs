//! What each operation asks the node for.

use vstd::prelude::*;
#[allow(unused_imports)]
use vstd::utf8::encode_utf8;

use crate::lightning::graph::NodeId;
#[allow(unused_imports)]
use crate::lightning::hex::{hex_round_trip, hex_text};
use crate::lightning::config::{NodePlan, SignerTransport};
use crate::lightning::ldk_service::{
    LdkBalance, LdkServiceConfig, LdkServiceError, LdkServiceInitError, Network,
};
use crate::lightning::node::{ChannelDetails, NodeCall};
use crate::lightning::parse::NodeAddress;
#[allow(unused_imports)]
use crate::lightning::parse::{
    address_parse, invoice_parse, network_check, offer_parse, onchain_parse, pubkey_parse,
};
use crate::lightning::service::LdkService;
#[allow(unused_imports)]
use crate::lightning::service::channel_with_id;
#[allow(unused_imports)]
use crate::text::{blank, lower_text, opt_text};

verus! {

/// The balances are a thousand times the satoshis, and the whole is their sum,
/// unless one of the three does not fit into 64 bits.
pub proof fn balances_are_in_millisatoshis(
    service: LdkService,
    onchain_sats: u64,
    lightning_sats: u64,
    out: Result<LdkBalance, LdkServiceError>,
    total: Result<u64, LdkServiceError>,
)
    requires
        call_ensures(LdkService::get_balance, (&service, onchain_sats, lightning_sats), out),
        call_ensures(LdkService::get_balance_msat, (&service, onchain_sats, lightning_sats), total),
    ensures
        (onchain_sats + lightning_sats) * 1000 <= u64::MAX ==> {
            &&& out matches Ok(b) && b.onchain_msat == 1000 * onchain_sats && b.lightning_msat
                == 1000 * lightning_sats && b.total_msat == 1000 * (onchain_sats + lightning_sats)
            &&& total matches Ok(n) && n == 1000 * (onchain_sats + lightning_sats)
        },
        (onchain_sats + lightning_sats) * 1000 > u64::MAX ==> (out matches Err(
            LdkServiceError::BalanceOverflow { sats },
        ) && (sats == onchain_sats || sats == lightning_sats || sats == onchain_sats
            + lightning_sats)) && total is Err,
{
}

/// An invoice is asked for with the amount, the description and the time that
/// were named, and a default where they were not.
pub proof fn invoices_are_asked_for_as_named(
    service: LdkService,
    amount_msat: u64,
    description: Option<&str>,
    expiry_secs: Option<u64>,
    out: Result<NodeCall, LdkServiceError>,
)
    requires
        call_ensures(
            LdkService::make_invoice,
            (&service, amount_msat, description, None, expiry_secs),
            out,
        ),
        amount_msat > 0,
        description matches Some(d) ==> encode_utf8(d@).len() <= 639,
        expiry_secs matches Some(e) ==> e <= 0xFFFF_FFFF,
    ensures
        out matches Ok(NodeCall::ReceiveBolt11 {
            amount_msat: asked,
            description: text,
            expiry_secs: time,
        }) && {
            &&& asked == amount_msat
            &&& description matches Some(d) ==> text@ == d@
            &&& description is None ==> text@ == "nwc invoice"@
            &&& expiry_secs matches Some(e) ==> time == e
            &&& expiry_secs is None ==> time == 3600
        },
{
    reveal_strlit("nwc invoice");
    assert(vstd::utf8::is_ascii_chars("nwc invoice"@));
    vstd::utf8::is_ascii_chars_encode_utf8("nwc invoice"@);
}

/// No invoice is asked for over nothing, with the hash of a description, with a
/// description of more than 639 bytes, or for a time that does not fit into 32
/// bits.
pub proof fn unfit_invoices_are_refused(
    service: LdkService,
    amount_msat: u64,
    description: Option<&str>,
    description_hash: Option<&str>,
    expiry_secs: Option<u64>,
    out: Result<NodeCall, LdkServiceError>,
)
    requires
        call_ensures(
            LdkService::make_invoice,
            (&service, amount_msat, description, description_hash, expiry_secs),
            out,
        ),
        amount_msat == 0 || description_hash is Some || (description matches Some(d)
            && encode_utf8(d@).len() > 639) || (expiry_secs matches Some(e) && e > 0xFFFF_FFFF),
    ensures
        out is Err,
        amount_msat == 0 ==> (out matches Err(LdkServiceError::InvalidAmount(n)) && n == 0),
        amount_msat > 0 ==> (out matches Err(LdkServiceError::InvalidInvoiceRequest(_))),
{
}

/// An invoice that can be read is paid as it is, with the amount that was named.
pub proof fn invoices_are_paid_as_they_are(
    service: LdkService,
    invoice: &str,
    amount: Option<u64>,
    out: Result<NodeCall, LdkServiceError>,
)
    requires
        call_ensures(LdkService::pay_invoice, (&service, invoice, amount), out),
    ensures
        invoice_parse(invoice@) is Ok ==> (out matches Ok(
            NodeCall::SendBolt11 { invoice: paid, amount_msat },
        ) && paid@ == invoice@ && amount_msat == amount),
        invoice_parse(invoice@) matches Err(m) ==> (out matches Err(
            LdkServiceError::InvalidInvoice(told),
        ) && told@ == m),
{
}

/// A payment without an invoice goes to the node and over the amount that were
/// named. There is none over nothing.
pub proof fn keysends_go_to_the_named_node(
    service: LdkService,
    dest: &str,
    amount: u64,
    out: Result<NodeCall, LdkServiceError>,
)
    requires
        call_ensures(LdkService::pay_keysend, (&service, dest, amount), out),
    ensures
        amount == 0 ==> (out matches Err(LdkServiceError::InvalidAmount(n)) && n == 0),
        amount > 0 && pubkey_parse(dest@) is Ok ==> (out matches Ok(
            NodeCall::SendKeysend { amount_msat, node_id },
        ) && amount_msat == amount && pubkey_parse(dest@) == Ok::<NodeId, Seq<char>>(node_id)),
        amount > 0 ==> (pubkey_parse(dest@) matches Err(m) ==> (out matches Err(
            LdkServiceError::InvalidPubkey(told),
        ) && told@ == m)),
{
}

/// An offer that can be read is paid as it is, with the note that was given.
pub proof fn offers_are_paid_as_they_are(
    service: LdkService,
    offer: &str,
    amount: Option<u64>,
    note: Option<String>,
    out: Result<NodeCall, LdkServiceError>,
)
    requires
        call_ensures(LdkService::pay_offer, (&service, offer, amount, note), out),
    ensures
        offer_parse(offer@) is Ok ==> (out matches Ok(
            NodeCall::SendOffer { offer: paid, payer_note },
        ) && paid@ == offer@ && opt_text(payer_note) == opt_text(note)),
        offer_parse(offer@) matches Err(m) ==> (out matches Err(LdkServiceError::OfferFailed(told))
            && told@ == "invalid offer: "@ + m),
{
}

/// An on-chain payment goes to the address that was named, if it is one of the
/// node's network, over the satoshis that were named.
pub proof fn onchain_payments_go_to_the_named_address(
    service: LdkService,
    address: &str,
    sats: u64,
    feerate: Option<u64>,
    out: Result<NodeCall, LdkServiceError>,
)
    requires
        call_ensures(LdkService::pay_onchain, (&service, address, sats, feerate), out),
    ensures
        onchain_parse(address@) matches Err(m) ==> (out matches Err(
            LdkServiceError::InvalidAddress(told),
        ) && told@ == m),
        onchain_parse(address@) matches Ok(read) ==> {
            &&& network_check(read, service.net()) matches Ok(checked) ==> (out matches Ok(
                NodeCall::SendOnchain { address: paid, amount_sats },
            ) && paid@ == checked && amount_sats == sats)
            &&& network_check(read, service.net()) matches Err(m) ==> (out matches Err(
                LdkServiceError::InvalidAddress(told),
            ) && told@ == m)
        },
{
}

/// An offer is asked for with the amount, the description and the time that were
/// named.
pub proof fn offers_are_asked_for_as_named(
    service: LdkService,
    amount: u64,
    description: &str,
    expiry: Option<u32>,
    call: NodeCall,
)
    requires
        call_ensures(LdkService::make_offer, (&service, amount, description, expiry), call),
    ensures
        call matches NodeCall::ReceiveOffer { amount_msat, description: text, expiry_secs }
            && amount_msat == amount && text@ == description@ && expiry_secs == expiry,
{
}

/// A channel is opened to the node, at the address, with the funds, of which the
/// part to be pushed is given, that were named.
pub proof fn channels_are_opened_as_named(
    service: LdkService,
    pubkey: &str,
    address: &str,
    sats: u64,
    push: Option<u64>,
    out: Result<NodeCall, LdkServiceError>,
)
    requires
        call_ensures(LdkService::open_channel, (&service, pubkey, address, sats, push), out),
    ensures
        pubkey_parse(pubkey@) matches Err(m) ==> (out matches Err(
            LdkServiceError::InvalidPubkey(told),
        ) && told@ == m),
        pubkey_parse(pubkey@) matches Ok(id) ==> {
            &&& address_parse(address@) matches Ok(read) ==> (out matches Ok(
                NodeCall::OpenChannel { node_id, address: to, amount_sats, push_msat },
            ) && node_id == id && to@ == read && amount_sats == sats && push_msat == push)
            &&& address_parse(address@) matches Err(m) ==> (out matches Err(
                LdkServiceError::ChannelFailed(told),
            ) && told@ == m)
        },
{
}

/// A peer is connected to at the address, or disconnected from, that was named.
pub proof fn peers_are_those_named(
    service: LdkService,
    pubkey: &str,
    address: &str,
    connect: Result<NodeCall, LdkServiceError>,
    disconnect: Result<NodeCall, LdkServiceError>,
)
    requires
        call_ensures(LdkService::connect_peer, (&service, pubkey, address), connect),
        call_ensures(LdkService::disconnect_peer, (&service, pubkey), disconnect),
    ensures
        pubkey_parse(pubkey@) matches Err(m) ==> (connect matches Err(
            LdkServiceError::InvalidPubkey(told),
        ) && told@ == m) && (disconnect matches Err(LdkServiceError::InvalidPubkey(told)) && told@
            == m),
        pubkey_parse(pubkey@) matches Ok(id) ==> {
            &&& disconnect matches Ok(NodeCall::DisconnectPeer { node_id }) && node_id == id
            &&& address_parse(address@) matches Ok(read) ==> (connect matches Ok(
                NodeCall::ConnectPeer { node_id, address: to },
            ) && node_id == id && to@ == read)
            &&& address_parse(address@) matches Err(m) ==> (connect matches Err(
                LdkServiceError::PeerFailed(told),
            ) && told@ == m)
        },
{
}

/// The channel at place `i` is the first one with the id.
pub open spec fn is_first_with_id(channels: Seq<ChannelDetails>, id: Seq<char>, i: int) -> bool {
    &&& 0 <= i < channels.len()
    &&& channels[i].channel_id@ == id
    &&& forall|j: int| 0 <= j < i ==> (#[trigger] channels[j]).channel_id@ != id
}

pub(crate) proof fn lemma_first_with_id(channels: Seq<ChannelDetails>, id: Seq<char>, i: int)
    requires
        is_first_with_id(channels, id, i),
    ensures
        channel_with_id(channels, id) == Some(channels[i]),
    decreases i,
{
    if i > 0 {
        assert(channels[0].channel_id@ != id);
        let rest = channels.skip(1);
        assert forall|j: int| 0 <= j < i - 1 implies (#[trigger] rest[j]).channel_id@ != id by {
            assert(rest[j] == channels[j + 1]);
        }
        assert(rest[i - 1] == channels[i]);
        lemma_first_with_id(rest, id, i - 1);
    }
}

pub(crate) proof fn lemma_none_with_id(channels: Seq<ChannelDetails>, id: Seq<char>)
    requires
        forall|j: int| 0 <= j < channels.len() ==> (#[trigger] channels[j]).channel_id@ != id,
    ensures
        channel_with_id(channels, id) is None,
    decreases channels.len(),
{
    if channels.len() > 0 {
        assert(channels[0].channel_id@ != id);
        let rest = channels.skip(1);
        assert forall|j: int| 0 <= j < rest.len() implies (#[trigger] rest[j]).channel_id@ != id by {
            assert(rest[j] == channels[j + 1]);
        }
        lemma_none_with_id(rest, id);
    }
}

/// Closing a channel closes the one with the id, by force exactly if that is
/// asked for.
pub proof fn the_named_channel_is_closed(
    service: LdkService,
    channels: Vec<ChannelDetails>,
    id: &str,
    force: bool,
    out: Result<NodeCall, LdkServiceError>,
    i: int,
)
    requires
        call_ensures(LdkService::close_channel, (&service, &channels, id, force), out),
        is_first_with_id(channels@, id@, i),
    ensures
        force ==> (out matches Ok(
            NodeCall::ForceCloseChannel { user_channel_id, counterparty, reason },
        ) && user_channel_id == channels@[i].user_channel_id && counterparty
            == channels@[i].counterparty && reason@ == "closed via control API"@),
        !force ==> (out matches Ok(NodeCall::CloseChannel { user_channel_id, counterparty })
            && user_channel_id == channels@[i].user_channel_id && counterparty
            == channels@[i].counterparty),
{
    lemma_first_with_id(channels@, id@, i);
}

/// Changing the fees of a channel changes those of the one with the id: to what
/// was named, and where nothing was, they stay as they are.
pub proof fn the_named_fees_are_set(
    service: LdkService,
    channels: Vec<ChannelDetails>,
    id: &str,
    base: Option<u32>,
    rate: Option<u32>,
    out: Result<NodeCall, LdkServiceError>,
    i: int,
)
    requires
        call_ensures(LdkService::set_channel_fees, (&service, &channels, id, base, rate), out),
        is_first_with_id(channels@, id@, i),
    ensures
        out matches Ok(
            NodeCall::UpdateChannelFees { user_channel_id, counterparty, base_fee_msat, fee_rate },
        ) && {
            &&& user_channel_id == channels@[i].user_channel_id
            &&& counterparty == channels@[i].counterparty
            &&& base matches Some(b) ==> base_fee_msat == b
            &&& base is None ==> base_fee_msat == channels@[i].forwarding_fee_base_msat
            &&& rate matches Some(r) ==> fee_rate == r
            &&& rate is None ==> fee_rate == channels@[i].forwarding_fee_proportional_millionths
        },
{
    lemma_first_with_id(channels@, id@, i);
}

/// Nothing is asked of the node for a channel that it does not have.
pub proof fn unknown_channels_are_left_alone(
    service: LdkService,
    channels: Vec<ChannelDetails>,
    id: &str,
    force: bool,
    base: Option<u32>,
    rate: Option<u32>,
    close: Result<NodeCall, LdkServiceError>,
    set: Result<NodeCall, LdkServiceError>,
)
    requires
        call_ensures(LdkService::close_channel, (&service, &channels, id, force), close),
        call_ensures(LdkService::set_channel_fees, (&service, &channels, id, base, rate), set),
        forall|j: int| 0 <= j < channels@.len() ==> (#[trigger] channels@[j]).channel_id@ != id@,
    ensures
        close matches Err(LdkServiceError::ChannelFailed(m)) && m@ == "channel not found: "@ + id@,
        set matches Err(LdkServiceError::ChannelFailed(m)) && m@ == "channel not found: "@ + id@,
{
    lemma_none_with_id(channels@, id@);
}

/// A payment is looked up by the hash that a text writes in hexadecimal, or by
/// the hash of an invoice.
pub proof fn payments_are_looked_up_by_hash(
    service: LdkService,
    hash: [u8; 32],
    text: &str,
    invoice: &str,
    by_hash: Result<NodeCall, LdkServiceError>,
    by_invoice: Result<NodeCall, LdkServiceError>,
)
    requires
        text@ == hex_text(hash@),
        call_ensures(LdkService::lookup_payment_by_hash, (&service, text), by_hash),
        call_ensures(LdkService::lookup_payment_by_bolt11, (&service, invoice), by_invoice),
    ensures
        by_hash matches Ok(NodeCall::FindPayment { id }) && id@ == hash@,
        invoice_parse(invoice@) matches Ok(h) ==> (by_invoice matches Ok(
            NodeCall::FindPayment { id },
        ) && id@ == h@),
        invoice_parse(invoice@) matches Err(m) ==> (by_invoice matches Err(
            LdkServiceError::InvalidInvoice(told),
        ) && told@ == m),
{
    hex_round_trip(hash@);
    assert(hash@.len() == 32);
    assert(hash@ == crate::lightning::hex::pair_bytes(encode_utf8(text@)));
    let b = crate::lightning::hex::pair_bytes(encode_utf8(text@));
    assert(exists|a: [u8; 32]| a@ == b);
}

/// The network of the node goes by its name.
pub proof fn networks_go_by_their_names(service: LdkService, name: &'static str)
    requires
        call_ensures(LdkService::network, (&service,), name),
    ensures
        service.net() == Network::Regtest <==> name@ == "regtest"@,
        service.net() == Network::Testnet <==> name@ == "testnet"@,
        service.net() == Network::Bitcoin <==> name@ == "bitcoin"@,
        service.net() == Network::Signet <==> name@ == "signet"@,
{
    reveal_strlit("regtest");
    reveal_strlit("testnet");
    reveal_strlit("bitcoin");
    reveal_strlit("signet");
    reveal_strlit("unknown");
    assert("regtest"@[0] != "testnet"@[0]);
    assert("bitcoin"@[0] != "testnet"@[0]);
    assert("bitcoin"@[0] != "regtest"@[0]);
    assert("unknown"@[0] != "testnet"@[0]);
    assert("unknown"@[0] != "regtest"@[0]);
    assert("unknown"@[0] != "bitcoin"@[0]);
    assert("signet"@.len() == 6);
}

/// A network by each of the names that it may be configured with, in whatever
/// case.
pub open spec fn is_network_name(name: Seq<char>, network: Network) -> bool {
    match network {
        Network::Regtest => name == "regtest"@,
        Network::Testnet => name == "testnet"@,
        Network::Bitcoin => name == "bitcoin"@ || name == "mainnet"@,
        Network::Signet => name == "signet"@,
        Network::Testnet4 => false,
    }
}

/// A node is built only where the configuration names the chain server, its user
/// and password, and the storage, and one of the networks; and for the network
/// that it names.
pub proof fn nodes_are_built_as_configured(
    cfg: LdkServiceConfig,
    out: Result<NodePlan, LdkServiceInitError>,
)
    requires
        call_ensures(LdkServiceConfig::plan, (&cfg,), out),
    ensures
        out matches Ok(plan) ==> {
            &&& !blank(cfg.bitcoind_rpc_host@)
            &&& !blank(cfg.bitcoind_rpc_user@)
            &&& !blank(cfg.bitcoind_rpc_password@)
            &&& !blank(cfg.ldk_storage_dir@)
            &&& is_network_name(lower_text(cfg.network@), plan.network)
            &&& plan.network_name@ == lower_text(cfg.network@)
            &&& plan.transport matches SignerTransport::Nostr { relay, nsec, signer_pubkey }
                ==> cfg.signer_transport@ == "nostr"@ && opt_text(cfg.signer_relay) == Some(relay@)
                && opt_text(cfg.signer_nsec) == Some(nsec@) && opt_text(cfg.signer_pubkey) == Some(
                signer_pubkey@,
            )
            &&& plan.transport is Embedded ==> cfg.signer_transport@ != "nostr"@
        },
{
}

/// A configuration that has all it needs gets its node.
pub proof fn complete_configurations_are_accepted(
    cfg: LdkServiceConfig,
    network: Network,
    out: Result<NodePlan, LdkServiceInitError>,
)
    requires
        call_ensures(LdkServiceConfig::plan, (&cfg,), out),
        !blank(cfg.bitcoind_rpc_host@),
        !blank(cfg.bitcoind_rpc_user@),
        !blank(cfg.bitcoind_rpc_password@),
        !blank(cfg.ldk_storage_dir@),
        is_network_name(lower_text(cfg.network@), network),
        cfg.signer_transport@ != "nostr"@ || (cfg.signer_relay is Some && cfg.signer_nsec is Some
            && cfg.signer_pubkey is Some),
    ensures
        out matches Ok(plan) && plan.network == network,
{
    reveal_strlit("regtest");
    reveal_strlit("testnet");
    reveal_strlit("bitcoin");
    reveal_strlit("mainnet");
    reveal_strlit("signet");
    assert("regtest"@[0] != "testnet"@[0]);
    assert("bitcoin"@[0] != "testnet"@[0]);
    assert("bitcoin"@[0] != "regtest"@[0]);
    assert("mainnet"@[0] != "testnet"@[0]);
    assert("mainnet"@[0] != "regtest"@[0]);
    assert("signet"@.len() == 6);
}

/// What a configuration lacks is told, the first thing first.
pub proof fn what_a_configuration_lacks_is_told(
    cfg: LdkServiceConfig,
    out: Result<(), LdkServiceInitError>,
    plan: Result<NodePlan, LdkServiceInitError>,
)
    requires
        call_ensures(LdkServiceConfig::validate, (&cfg,), out),
        call_ensures(LdkServiceConfig::plan, (&cfg,), plan),
    ensures
        out is Ok <==> !blank(cfg.bitcoind_rpc_host@) && !blank(cfg.bitcoind_rpc_user@) && !blank(
            cfg.bitcoind_rpc_password@,
        ) && !blank(cfg.ldk_storage_dir@),
        out is Err ==> plan is Err,
        blank(cfg.bitcoind_rpc_host@) ==> (out matches Err(LdkServiceInitError::InvalidConfig(m))
            && m@ == "bitcoind_rpc_host must not be empty"@),
{
}

/// The node listens on the address that is configured, and on none where none
/// is.
pub proof fn nodes_listen_where_configured(
    cfg: LdkServiceConfig,
    out: Result<Option<NodeAddress>, LdkServiceInitError>,
)
    requires
        call_ensures(LdkServiceConfig::listening_address, (&cfg,), out),
    ensures
        cfg.ldk_listen_addr is None ==> (out matches Ok(address) && address is None),
        cfg.ldk_listen_addr matches Some(text) ==> {
            &&& address_parse(text@) matches Ok(read) ==> (out matches Ok(Some(address)) && address@
                == read)
            &&& address_parse(text@) is Err ==> (out matches Err(
                LdkServiceInitError::InvalidListeningAddress { address },
            ) && address@ == text@)
        },
{
}

} // verus!
