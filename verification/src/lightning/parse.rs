//! Texts that other crates know how to read: keys, addresses, invoices, offers
//! and payment URIs.

use bip321::{Bip321Uri, NoExtensions};
use ldk_node::bitcoin::secp256k1::PublicKey;
use ldk_node::lightning::ln::msgs::SocketAddress;
use ldk_node::lightning::offers::offer::Offer;
use ldk_node::bitcoin::Address;
use ldk_node::lightning_invoice::{Bolt11Invoice, Description};
use std::str::FromStr;
use vstd::prelude::*;
use vstd::string::*;
#[allow(unused_imports)]
use vstd::utf8::{
    encode_utf8, is_ascii_chars, is_ascii_chars_encode_utf8, is_char_boundary,
};

use crate::lightning::graph::NodeId;
use crate::lightning::ldk_service::Network;
use crate::text::{chars_of, copy_text, join, split_at_first, split_text, trim};
#[allow(unused_imports)]
use crate::text::{
    first_index, lacks, lemma_before_first_index, lemma_first_index, lemma_first_index_behind,
    lemma_parts_lack_separator, lemma_split_first_part, opt_text, split_parts, texts, trimmed_end,
    trimmed_start,
};

verus! {

/// What secp256k1's `PublicKey::from_str` makes of a text: the compressed form
/// of the key, or the message of its error.
pub uninterp spec fn pubkey_parse(text: Seq<char>) -> Result<NodeId, Seq<char>>;

/// Calls secp256k1's `PublicKey::from_str`. The result depends on the text
/// alone: the key in its compressed form (`PublicKey::serialize`), or the
/// message of the error.
#[verifier::external_body]
pub(crate) fn parse_pubkey(text: &str) -> (out: Result<NodeId, String>)
    ensures
        match out {
            Ok(id) => pubkey_parse(text@) == Ok::<NodeId, Seq<char>>(id),
            Err(message) => pubkey_parse(text@) == Err::<NodeId, Seq<char>>(message@),
        },
{
    match PublicKey::from_str(text) {
        Ok(key) => Ok(NodeId { bytes: key.serialize() }),
        Err(e) => Err(e.to_string()),
    }
}

/// The address of a node.
#[allow(inconsistent_fields)]
#[derive(Debug, Clone)]
pub enum NodeAddress<S = String> {
    TcpIpV4 { addr: [u8; 4], port: u16 },
    TcpIpV6 { addr: [u8; 16], port: u16 },
    OnionV2([u8; 12]),
    OnionV3 { ed25519_pubkey: [u8; 32], checksum: u16, version: u8, port: u16 },
    Hostname { hostname: S, port: u16 },
}

impl View for NodeAddress {
    type V = NodeAddress<Seq<char>>;

    open spec fn view(&self) -> NodeAddress<Seq<char>> {
        match *self {
            NodeAddress::TcpIpV4 { addr, port } => NodeAddress::TcpIpV4 { addr, port },
            NodeAddress::TcpIpV6 { addr, port } => NodeAddress::TcpIpV6 { addr, port },
            NodeAddress::OnionV2(bytes) => NodeAddress::OnionV2(bytes),
            NodeAddress::OnionV3 { ed25519_pubkey, checksum, version, port } =>
                NodeAddress::OnionV3 { ed25519_pubkey, checksum, version, port },
            NodeAddress::Hostname { hostname, port } => NodeAddress::Hostname {
                hostname: hostname@,
                port,
            },
        }
    }
}

/// What LDK's `SocketAddress::from_str` makes of a text: the address, or the
/// message of its error.
pub uninterp spec fn address_parse(text: Seq<char>) -> Result<NodeAddress<Seq<char>>, Seq<char>>;

/// Calls LDK's `SocketAddress::from_str`. The result depends on the text
/// alone: the address, or the message of the error.
#[verifier::external_body]
pub(crate) fn parse_address(text: &str) -> (out: Result<NodeAddress, String>)
    ensures
        match out {
            Ok(a) => address_parse(text@) == Ok::<NodeAddress<Seq<char>>, Seq<char>>(a@),
            Err(message) => address_parse(text@) == Err::<NodeAddress<Seq<char>>, Seq<char>>(
                message@,
            ),
        },
{
    match SocketAddress::from_str(text) {
        Ok(SocketAddress::TcpIpV4 { addr, port }) => Ok(NodeAddress::TcpIpV4 { addr, port }),
        Ok(SocketAddress::TcpIpV6 { addr, port }) => Ok(NodeAddress::TcpIpV6 { addr, port }),
        Ok(SocketAddress::OnionV2(bytes)) => Ok(NodeAddress::OnionV2(bytes)),
        Ok(SocketAddress::OnionV3 { ed25519_pubkey, checksum, version, port }) => {
            Ok(NodeAddress::OnionV3 { ed25519_pubkey, checksum, version, port })
        },
        Ok(SocketAddress::Hostname { hostname, port }) => {
            Ok(NodeAddress::Hostname { hostname: hostname.to_string(), port })
        },
        Err(e) => Err(e.to_string()),
    }
}

/// What lightning-invoice's `Bolt11Invoice::from_str` makes of a text: the
/// payment hash of the invoice, or the message of its error.
pub uninterp spec fn invoice_parse(text: Seq<char>) -> Result<[u8; 32], Seq<char>>;

/// Calls lightning-invoice's `Bolt11Invoice::from_str`. The result depends on
/// the text alone: the payment hash of the invoice
/// (`Bolt11Invoice::payment_hash`), or the message of the error.
#[verifier::external_body]
pub(crate) fn parse_invoice(text: &str) -> (out: Result<[u8; 32], String>)
    ensures
        match out {
            Ok(hash) => invoice_parse(text@) == Ok::<[u8; 32], Seq<char>>(hash),
            Err(message) => invoice_parse(text@) == Err::<[u8; 32], Seq<char>>(message@),
        },
{
    match Bolt11Invoice::from_str(text) {
        Ok(invoice) => Ok(ldk_node::bitcoin::hashes::Hash::to_byte_array(*invoice.payment_hash())),
        Err(e) => Err(e.to_string()),
    }
}

/// What LDK's `Offer::from_str` makes of a text: the id of the offer, or its
/// error in debug form.
pub uninterp spec fn offer_parse(text: Seq<char>) -> Result<[u8; 32], Seq<char>>;

/// Calls LDK's `Offer::from_str`. The result depends on the text alone: the id
/// of the offer (`Offer::id`), or the error in debug form.
#[verifier::external_body]
pub(crate) fn parse_offer(text: &str) -> (out: Result<[u8; 32], String>)
    ensures
        match out {
            Ok(id) => offer_parse(text@) == Ok::<[u8; 32], Seq<char>>(id),
            Err(message) => offer_parse(text@) == Err::<[u8; 32], Seq<char>>(message@),
        },
{
    match Offer::from_str(text) {
        Ok(offer) => Ok(offer.id().0),
        Err(e) => Err(format!("{:?}", e)),
    }
}

/// What bitcoin's `Address::from_str` makes of a text: the address as the crate
/// writes it, or the message of its error.
pub uninterp spec fn onchain_parse(text: Seq<char>) -> Result<Seq<char>, Seq<char>>;

/// Calls bitcoin's `Address::from_str`. The result depends on the text alone:
/// the address as the crate writes it, or the message of the error.
#[verifier::external_body]
pub(crate) fn parse_onchain(text: &str) -> (out: Result<String, String>)
    ensures
        match out {
            Ok(address) => onchain_parse(text@) == Ok::<Seq<char>, Seq<char>>(address@),
            Err(message) => onchain_parse(text@) == Err::<Seq<char>, Seq<char>>(message@),
        },
{
    match Address::from_str(text) {
        Ok(address) => Ok(address.assume_checked().to_string()),
        Err(e) => Err(e.to_string()),
    }
}

/// What bitcoin's `Address::require_network` makes of a written address: the
/// same address, or the message of its error.
pub uninterp spec fn network_check(address: Seq<char>, network: Network) -> Result<
    Seq<char>,
    Seq<char>,
>;

/// Calls bitcoin's `Address::require_network` on the address that the text
/// stands for. The result depends on the text and the network alone: the
/// address as the crate writes it, or the message of the error.
#[verifier::external_body]
pub(crate) fn require_network(address: &str, network: Network) -> (out: Result<String, String>)
    ensures
        match out {
            Ok(checked) => network_check(address@, network) == Ok::<Seq<char>, Seq<char>>(checked@),
            Err(message) => network_check(address@, network) == Err::<Seq<char>, Seq<char>>(
                message@,
            ),
        },
{
    let required = match network {
        Network::Bitcoin => ldk_node::bitcoin::Network::Bitcoin,
        Network::Testnet => ldk_node::bitcoin::Network::Testnet,
        Network::Signet => ldk_node::bitcoin::Network::Signet,
        Network::Regtest => ldk_node::bitcoin::Network::Regtest,
        Network::Testnet4 => ldk_node::bitcoin::Network::Testnet4,
    };
    match Address::from_str(address).and_then(|a| a.require_network(required)) {
        Ok(checked) => Ok(checked.to_string()),
        Err(e) => Err(e.to_string()),
    }
}

/// The most bytes that the description of an invoice may have.
pub const MAX_DESCRIPTION_BYTES: usize = 639;

/// Calls lightning-invoice's `Description::new`, which takes a text of at most
/// 639 bytes as it is and refuses a longer one.
#[verifier::external_body]
pub(crate) fn make_description(text: String) -> (out: Result<String, String>)
    ensures
        match out {
            Ok(description) => description@ == text@ && encode_utf8(text@).len()
                <= MAX_DESCRIPTION_BYTES,
            Err(message) => message@
                == "The supplied description string was longer than 639 bytes"@ && encode_utf8(
                text@,
            ).len() > MAX_DESCRIPTION_BYTES,
        },
{
    match Description::new(text) {
        Ok(description) => Ok(description.into_inner().0),
        Err(e) => Err(e.to_string()),
    }
}

/// What a payment URI asks for, with its invoices and its offers in the order
/// in which they stand in it.
#[derive(Debug)]
pub struct PaymentUri<S = String, L = Vec<String>> {
    pub amount_sat: Option<u64>,
    pub lightning: L,
    pub offers: L,
    pub address: Option<S>,
}

/// A payment URI over its texts.
pub type UriView = PaymentUri<Seq<char>, Seq<Seq<char>>>;

impl View for PaymentUri {
    type V = UriView;

    open spec fn view(&self) -> UriView {
        PaymentUri {
            amount_sat: self.amount_sat,
            lightning: texts(self.lightning@),
            offers: texts(self.offers@),
            address: opt_text(self.address),
        }
    }
}

/// The text has at least `n` bytes, and the byte at `n` stands inside a
/// character.
pub open spec fn splits_char(s: Seq<char>, n: int) -> bool {
    encode_utf8(s).len() >= n && !is_char_boundary(encode_utf8(s), n)
}

fn cuts_char(s: &str, n: usize) -> (out: bool)
    ensures
        out == splits_char(s@, n as int),
{
    s.as_bytes().len() >= n && !s.is_char_boundary(n)
}

/// A payment URI without the white space round it.
pub open spec fn uri_text(text: Seq<char>) -> Seq<char> {
    trimmed_end(trimmed_start(text))
}

/// The text starts with the scheme of a payment URI, in lower or upper case.
pub open spec fn has_scheme(t: Seq<char>) -> bool {
    t.len() >= 8 && forall|i: int|
        0 <= i < 8 ==> #[trigger] t[i] == "bitcoin:"@[i] || t[i] == "BITCOIN:"@[i]
}

fn starts_with_scheme(t: &Vec<char>) -> (out: bool)
    ensures
        out == has_scheme(t@),
{
    if t.len() < 8 {
        return false;
    }
    let lower: Vec<char> = chars_of("bitcoin:");
    let upper: Vec<char> = chars_of("BITCOIN:");
    proof {
        reveal_strlit("bitcoin:");
        reveal_strlit("BITCOIN:");
    }
    let mut i: usize = 0;
    while i < 8
        invariant
            i <= 8,
            t.len() >= 8,
            lower@ == "bitcoin:"@,
            upper@ == "BITCOIN:"@,
            lower.len() == 8,
            upper.len() == 8,
            forall|k: int|
                0 <= k < i ==> #[trigger] t@[k] == "bitcoin:"@[k] || t@[k] == "BITCOIN:"@[k],
        decreases 8 - i,
    {
        if t[i] != lower[i] && t[i] != upper[i] {
            assert(t@[i as int] != lower@[i as int]);
            return false;
        }
        i += 1;
    }
    true
}

/// The query of a payment URI: what follows the first question mark behind the
/// eight characters of the scheme.
pub open spec fn uri_query(t: Seq<char>) -> Seq<char> {
    let body = t.skip(8);
    let mark = first_index(body, '?');
    if mark < body.len() {
        body.skip(mark + 1)
    } else {
        Seq::empty()
    }
}

/// The key of a parameter.
pub open spec fn param_key(param: Seq<char>) -> Seq<char> {
    param.take(first_index(param, '='))
}

/// A parameter with a value, whose key has a character across its fourth byte.
pub open spec fn unreadable_param(param: Seq<char>) -> bool {
    first_index(param, '=') < param.len() && splits_char(param_key(param), 4)
}

/// A query with a parameter that cannot be read.
pub open spec fn unreadable_query(query: Seq<char>) -> bool {
    exists|k: int|
        0 <= k < split_parts(query, '&').len() && unreadable_param(
            #[trigger] split_parts(query, '&')[k],
        )
}

/// The parameters up to the first that cannot be read, each with the sign that
/// follows it.
pub open spec fn readable_params(params: Seq<Seq<char>>) -> Seq<char>
    decreases params.len(),
{
    if params.len() == 0 || unreadable_param(params[0]) {
        Seq::empty()
    } else {
        params[0] + "&"@ + readable_params(params.skip(1))
    }
}

/// A payment URI with a parameter of its own in place of the first one that
/// cannot be read and all that follows: one that names a way to pay, which is
/// never at fault.
pub open spec fn readable_start(t: Seq<char>) -> Seq<char> {
    let body = t.skip(8);
    t.take(8) + body.take(first_index(body, '?')) + "?"@ + readable_params(
        split_parts(uri_query(t), '&'),
    ) + "pay=x"@
}

/// What bip321's `Bip321Uri::from_str` makes of a text: what the URI asks for,
/// or the message of its error.
pub uninterp spec fn uri_parse(text: Seq<char>) -> Result<UriView, Seq<char>>;

/// The URI is at fault ahead of its first parameter that cannot be read.
pub open spec fn faulty_start(t: Seq<char>) -> bool {
    uri_parse(readable_start(t)) is Err
}

/// Calls bip321's `Bip321Uri::from_str`, without extensions. The result depends
/// on the text alone: what the URI asks for, or the message of the error. The
/// function cuts the trimmed text behind its eighth byte and, under the right
/// scheme, the key of a parameter behind its fourth. It panics if a cut is
/// inside a character: such texts are left out. It reads the address and then
/// the parameters in their order, and returns the first fault: a URI that is at
/// fault ahead of such a key is read.
#[verifier::external_body]
fn parse_uri(text: &str) -> (out: Result<PaymentUri, String>)
    requires
        !has_scheme(uri_text(text@)) ==> !splits_char(uri_text(text@), 8),
        has_scheme(uri_text(text@)) && unreadable_query(uri_query(uri_text(text@)))
            ==> faulty_start(uri_text(text@)),
    ensures
        match out {
            Ok(uri) => uri_parse(text@) == Ok::<UriView, Seq<char>>(uri@),
            Err(message) => uri_parse(text@) == Err::<UriView, Seq<char>>(message@),
        },
{
    match Bip321Uri::<NoExtensions>::from_str(text) {
        Ok(uri) => Ok(PaymentUri {
            amount_sat: uri.amount().map(|a| a.to_sat()),
            lightning: uri.lightning().iter().map(|i| i.inner().to_string()).collect(),
            offers: uri.lno().iter().map(|o| o.inner().to_string()).collect(),
            address: uri.address().map(|a| a.to_string()),
        }),
        Err(e) => Err(e.to_string()),
    }
}

/// How a payment URI is read. One with a character across its eighth byte has
/// the wrong scheme, and one whose first fault is a parameter that cannot be
/// read is malformed.
pub open spec fn uri_reading(text: Seq<char>) -> Result<UriView, Seq<char>> {
    let t = uri_text(text);
    if !has_scheme(t) && splits_char(t, 8) {
        Err("invalid scheme"@)
    } else if has_scheme(t) && unreadable_query(uri_query(t)) && !faulty_start(t) {
        Err("malformed parameter"@)
    } else {
        uri_parse(text)
    }
}

proof fn lemma_own_param_is_readable()
    ensures
        !unreadable_query("pay=x"@),
{
    reveal_strlit("pay=x");
    let own = "pay=x"@;
    lemma_first_index(own, '&', 5);
    lemma_first_index(own, '=', 3);
    let key = param_key(own);
    assert(key.len() == 3);
    assert(is_ascii_chars(key));
    is_ascii_chars_encode_utf8(key);
    assert(split_parts(own, '&') =~= seq![own]);
}

/// No parameter is unreadable up to the first unreadable one.
proof fn lemma_readable_params(params: Seq<Seq<char>>)
    requires
        forall|k: int| 0 <= k < params.len() ==> lacks(#[trigger] params[k], '&'),
    ensures
        !unreadable_query(readable_params(params) + "pay=x"@),
    decreases params.len(),
{
    let own = "pay=x"@;
    lemma_own_param_is_readable();
    if params.len() == 0 || unreadable_param(params[0]) {
        assert(readable_params(params) + own =~= own);
    } else {
        let rest = readable_params(params.skip(1)) + own;
        assert forall|k: int| 0 <= k < params.skip(1).len() implies lacks(
            #[trigger] params.skip(1)[k],
            '&',
        ) by {
            assert(params.skip(1)[k] == params[k + 1]);
        }
        lemma_readable_params(params.skip(1));
        reveal_strlit("&");
        assert("&"@ =~= seq!['&']);
        let all = readable_params(params) + own;
        assert(all =~= params[0] + seq!['&'] + rest);
        lemma_split_first_part(params[0], '&', rest);
        assert forall|k: int| 0 <= k < split_parts(all, '&').len() implies !unreadable_param(
            #[trigger] split_parts(all, '&')[k],
        ) by {
            if k > 0 {
                assert(split_parts(all, '&')[k] == split_parts(rest, '&')[k - 1]);
            }
        }
    }
}

/// The readable start of a payment URI can be read.
proof fn lemma_readable_start(t: Seq<char>)
    requires
        has_scheme(t),
    ensures
        ({
            let start = readable_start(t);
            &&& uri_text(start) == start
            &&& has_scheme(start)
            &&& !unreadable_query(uri_query(start))
        }),
{
    reveal_strlit("bitcoin:");
    reveal_strlit("BITCOIN:");
    reveal_strlit("pay=x");
    reveal_strlit("?");
    let start = readable_start(t);
    let body = t.skip(8);
    let mark = first_index(body, '?');
    lemma_before_first_index(body, '?');
    let params = split_parts(uri_query(t), '&');
    let query = readable_params(params) + "pay=x"@;
    assert(start =~= t.take(8) + body.take(mark) + "?"@ + query);
    assert forall|i: int| 0 <= i < 8 implies #[trigger] start[i] == t[i] by {}
    assert(start[0] == 'b' || start[0] == 'B');
    assert(trimmed_start(start) == start);
    assert(start.last() == 'x');
    assert(trimmed_end(start) == start);
    assert("?"@ =~= seq!['?']);
    assert(start.skip(8) =~= body.take(mark) + seq!['?'] + query);
    lemma_first_index_behind(body.take(mark), '?', query);
    assert(uri_query(start) =~= query);
    lemma_parts_lack_separator(uri_query(t), '&');
    lemma_readable_params(params);
}

/// The parameters of a query up to the first that cannot be read, or `None` if
/// all can.
fn take_readable_params(query: &str) -> (out: Option<String>)
    ensures
        out is Some <==> unreadable_query(query@),
        out matches Some(head) ==> head@ == readable_params(split_parts(query@, '&')),
{
    let params: Vec<String> = split_text(query, '&');
    let ghost parts = split_parts(query@, '&');
    let mut head: String = copy_text("");
    proof {
        reveal_strlit("");
        assert(parts.skip(0) =~= parts);
        assert(head@ + readable_params(parts) =~= readable_params(parts));
    }
    let mut k: usize = 0;
    while k < params.len()
        invariant
            k <= params.len(),
            parts == split_parts(query@, '&'),
            texts(params@) == parts,
            forall|j: int| 0 <= j < k ==> !unreadable_param(#[trigger] parts[j]),
            head@ + readable_params(parts.skip(k as int)) == readable_params(parts),
        decreases params.len() - k,
    {
        assert(texts(params@)[k as int] == params@[k as int]@);
        assert(parts.skip(k as int)[0] == parts[k as int]);
        let (key, value) = split_at_first(params[k].as_str(), '=');
        if value.is_some() && cuts_char(key.as_str(), 4) {
            assert(unreadable_param(parts[k as int]));
            assert(head@ + readable_params(parts.skip(k as int)) =~= head@);
            return Some(head);
        }
        assert(!unreadable_param(parts[k as int]));
        let longer: String = join(head.as_str(), params[k].as_str());
        let ghost before = head@;
        head = join(longer.as_str(), "&");
        proof {
            assert(parts.skip(k as int).skip(1) =~= parts.skip(k + 1));
            assert(before + (parts[k as int] + "&"@ + readable_params(parts.skip(k + 1)))
                =~= head@ + readable_params(parts.skip(k + 1)));
        }
        k += 1;
    }
    assert(texts(params@).len() == params@.len());
    None
}

/// Reads a payment URI.
pub fn read_uri(text: &str) -> (out: Result<PaymentUri, String>)
    ensures
        match out {
            Ok(uri) => uri_reading(text@) == Ok::<UriView, Seq<char>>(uri@),
            Err(message) => uri_reading(text@) == Err::<UriView, Seq<char>>(message@),
        },
{
    let trimmed: &str = trim(text);
    let chars: Vec<char> = chars_of(trimmed);
    if !starts_with_scheme(&chars) {
        if cuts_char(trimmed, 8) {
            return Err(copy_text("invalid scheme"));
        }
        return parse_uri(text);
    }
    let body: &str = trimmed.substring_char(8, chars.len());
    assert(body@ =~= trimmed@.skip(8));
    let (address, rest) = split_at_first(body, '?');
    let query: String = match rest {
        Some(q) => q,
        None => copy_text(""),
    };
    proof {
        reveal_strlit("");
    }
    assert(query@ =~= uri_query(trimmed@));
    if let Some(head) = take_readable_params(query.as_str()) {
        let mut start: String = copy_text(trimmed.substring_char(0, 8));
        start.append(address.as_str());
        start.append("?");
        start.append(head.as_str());
        start.append("pay=x");
        proof {
            assert(start@ =~= readable_start(trimmed@));
            lemma_readable_start(trimmed@);
        }
        if parse_uri(start.as_str()).is_ok() {
            return Err(copy_text("malformed parameter"));
        }
    }
    parse_uri(text)
}

} // verus!
