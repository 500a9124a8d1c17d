//! The messages of the wallet protocol, as far as the service reads and writes
//! them.
//!
//! The messages hold texts of type `S` and lists of other types. In code these
//! are strings and vectors, in contracts sequences.

use vstd::prelude::*;

use crate::lightning::payments::PaymentMethod;
use crate::text::{copy_text, same_text};
#[allow(unused_imports)]
use crate::text::{opt_text, texts};
#[allow(unused_imports)]
use crate::views::{option_view, views};

verus! {

/// What a client asks the wallet to do.
#[derive(Debug)]
pub enum Method<S = String> {
    GetInfo,
    GetBalance,
    PayInvoice,
    PayKeysend,
    MakeInvoice,
    LookupInvoice,
    ListTransactions,
    MakeHoldInvoice,
    CancelHoldInvoice,
    SettleHoldInvoice,
    PayOnchain,
    MakeNewAddress,
    PayOffer,
    MakeOffer,
    LookupOffer,
    LookupAddress,
    PayBip321,
    SubscribeNotifications,
    ListOffers,
    DisableOffer,
    ListAddresses,
    ListInvoices,
    /// A method that the protocol does not define.
    Unknown(S),
}

impl View for Method {
    type V = Method<Seq<char>>;

    open spec fn view(&self) -> Method<Seq<char>> {
        match *self {
            Method::GetInfo => Method::GetInfo,
            Method::GetBalance => Method::GetBalance,
            Method::PayInvoice => Method::PayInvoice,
            Method::PayKeysend => Method::PayKeysend,
            Method::MakeInvoice => Method::MakeInvoice,
            Method::LookupInvoice => Method::LookupInvoice,
            Method::ListTransactions => Method::ListTransactions,
            Method::MakeHoldInvoice => Method::MakeHoldInvoice,
            Method::CancelHoldInvoice => Method::CancelHoldInvoice,
            Method::SettleHoldInvoice => Method::SettleHoldInvoice,
            Method::PayOnchain => Method::PayOnchain,
            Method::MakeNewAddress => Method::MakeNewAddress,
            Method::PayOffer => Method::PayOffer,
            Method::MakeOffer => Method::MakeOffer,
            Method::LookupOffer => Method::LookupOffer,
            Method::LookupAddress => Method::LookupAddress,
            Method::PayBip321 => Method::PayBip321,
            Method::SubscribeNotifications => Method::SubscribeNotifications,
            Method::ListOffers => Method::ListOffers,
            Method::DisableOffer => Method::DisableOffer,
            Method::ListAddresses => Method::ListAddresses,
            Method::ListInvoices => Method::ListInvoices,
            Method::Unknown(name) => Method::Unknown(name@),
        }
    }
}

/// The name of a method.
pub open spec fn method_name(m: Method<Seq<char>>) -> Seq<char> {
    match m {
        Method::GetInfo => "get_info"@,
        Method::GetBalance => "get_balance"@,
        Method::PayInvoice => "pay_invoice"@,
        Method::PayKeysend => "pay_keysend"@,
        Method::MakeInvoice => "make_invoice"@,
        Method::LookupInvoice => "lookup_invoice"@,
        Method::ListTransactions => "list_transactions"@,
        Method::MakeHoldInvoice => "make_hold_invoice"@,
        Method::CancelHoldInvoice => "cancel_hold_invoice"@,
        Method::SettleHoldInvoice => "settle_hold_invoice"@,
        Method::PayOnchain => "pay_onchain"@,
        Method::MakeNewAddress => "make_new_address"@,
        Method::PayOffer => "pay_offer"@,
        Method::MakeOffer => "make_offer"@,
        Method::LookupOffer => "lookup_offer"@,
        Method::LookupAddress => "lookup_address"@,
        Method::PayBip321 => "pay_bip321"@,
        Method::SubscribeNotifications => "subscribe_notifications"@,
        Method::ListOffers => "list_offers"@,
        Method::DisableOffer => "disable_offer"@,
        Method::ListAddresses => "list_addresses"@,
        Method::ListInvoices => "list_invoices"@,
        Method::Unknown(name) => name,
    }
}

impl Method {
    /// The name of the method.
    pub fn as_str(&self) -> (out: &str)
        ensures
            out@ == method_name(self@),
    {
        match self {
            Method::GetInfo => "get_info",
            Method::GetBalance => "get_balance",
            Method::PayInvoice => "pay_invoice",
            Method::PayKeysend => "pay_keysend",
            Method::MakeInvoice => "make_invoice",
            Method::LookupInvoice => "lookup_invoice",
            Method::ListTransactions => "list_transactions",
            Method::MakeHoldInvoice => "make_hold_invoice",
            Method::CancelHoldInvoice => "cancel_hold_invoice",
            Method::SettleHoldInvoice => "settle_hold_invoice",
            Method::PayOnchain => "pay_onchain",
            Method::MakeNewAddress => "make_new_address",
            Method::PayOffer => "pay_offer",
            Method::MakeOffer => "make_offer",
            Method::LookupOffer => "lookup_offer",
            Method::LookupAddress => "lookup_address",
            Method::PayBip321 => "pay_bip321",
            Method::SubscribeNotifications => "subscribe_notifications",
            Method::ListOffers => "list_offers",
            Method::DisableOffer => "disable_offer",
            Method::ListAddresses => "list_addresses",
            Method::ListInvoices => "list_invoices",
            Method::Unknown(name) => name.as_str(),
        }
    }

    /// The same method.
    pub fn copy(&self) -> (out: Method)
        ensures
            out@ == self@,
    {
        match self {
            Method::GetInfo => Method::GetInfo,
            Method::GetBalance => Method::GetBalance,
            Method::PayInvoice => Method::PayInvoice,
            Method::PayKeysend => Method::PayKeysend,
            Method::MakeInvoice => Method::MakeInvoice,
            Method::LookupInvoice => Method::LookupInvoice,
            Method::ListTransactions => Method::ListTransactions,
            Method::MakeHoldInvoice => Method::MakeHoldInvoice,
            Method::CancelHoldInvoice => Method::CancelHoldInvoice,
            Method::SettleHoldInvoice => Method::SettleHoldInvoice,
            Method::PayOnchain => Method::PayOnchain,
            Method::MakeNewAddress => Method::MakeNewAddress,
            Method::PayOffer => Method::PayOffer,
            Method::MakeOffer => Method::MakeOffer,
            Method::LookupOffer => Method::LookupOffer,
            Method::LookupAddress => Method::LookupAddress,
            Method::PayBip321 => Method::PayBip321,
            Method::SubscribeNotifications => Method::SubscribeNotifications,
            Method::ListOffers => Method::ListOffers,
            Method::DisableOffer => Method::DisableOffer,
            Method::ListAddresses => Method::ListAddresses,
            Method::ListInvoices => Method::ListInvoices,
            Method::Unknown(name) => Method::Unknown(copy_text(name.as_str())),
        }
    }
}

/// The method with the given name. A name that the protocol does not define is
/// kept as it is.
pub open spec fn method_named(name: Seq<char>) -> Method<Seq<char>> {
    if name == "get_info"@ {
        Method::GetInfo
    } else if name == "get_balance"@ {
        Method::GetBalance
    } else if name == "pay_invoice"@ {
        Method::PayInvoice
    } else if name == "pay_keysend"@ {
        Method::PayKeysend
    } else if name == "make_invoice"@ {
        Method::MakeInvoice
    } else if name == "lookup_invoice"@ {
        Method::LookupInvoice
    } else if name == "list_transactions"@ {
        Method::ListTransactions
    } else if name == "make_hold_invoice"@ {
        Method::MakeHoldInvoice
    } else if name == "cancel_hold_invoice"@ {
        Method::CancelHoldInvoice
    } else if name == "settle_hold_invoice"@ {
        Method::SettleHoldInvoice
    } else if name == "pay_onchain"@ {
        Method::PayOnchain
    } else if name == "make_new_address"@ {
        Method::MakeNewAddress
    } else if name == "pay_offer"@ {
        Method::PayOffer
    } else if name == "make_offer"@ {
        Method::MakeOffer
    } else if name == "lookup_offer"@ {
        Method::LookupOffer
    } else if name == "lookup_address"@ {
        Method::LookupAddress
    } else if name == "pay_bip321"@ {
        Method::PayBip321
    } else if name == "subscribe_notifications"@ {
        Method::SubscribeNotifications
    } else if name == "list_offers"@ {
        Method::ListOffers
    } else if name == "disable_offer"@ {
        Method::DisableOffer
    } else if name == "list_addresses"@ {
        Method::ListAddresses
    } else if name == "list_invoices"@ {
        Method::ListInvoices
    } else {
        Method::Unknown(name)
    }
}

/// The method with the given name.
pub fn method_from_name(name: &str) -> (out: Method)
    ensures
        out@ == method_named(name@),
{
    if same_text(name, "get_info") {
        Method::GetInfo
    } else if same_text(name, "get_balance") {
        Method::GetBalance
    } else if same_text(name, "pay_invoice") {
        Method::PayInvoice
    } else if same_text(name, "pay_keysend") {
        Method::PayKeysend
    } else if same_text(name, "make_invoice") {
        Method::MakeInvoice
    } else if same_text(name, "lookup_invoice") {
        Method::LookupInvoice
    } else if same_text(name, "list_transactions") {
        Method::ListTransactions
    } else if same_text(name, "make_hold_invoice") {
        Method::MakeHoldInvoice
    } else if same_text(name, "cancel_hold_invoice") {
        Method::CancelHoldInvoice
    } else if same_text(name, "settle_hold_invoice") {
        Method::SettleHoldInvoice
    } else if same_text(name, "pay_onchain") {
        Method::PayOnchain
    } else if same_text(name, "make_new_address") {
        Method::MakeNewAddress
    } else if same_text(name, "pay_offer") {
        Method::PayOffer
    } else if same_text(name, "make_offer") {
        Method::MakeOffer
    } else if same_text(name, "lookup_offer") {
        Method::LookupOffer
    } else if same_text(name, "lookup_address") {
        Method::LookupAddress
    } else if same_text(name, "pay_bip321") {
        Method::PayBip321
    } else if same_text(name, "subscribe_notifications") {
        Method::SubscribeNotifications
    } else if same_text(name, "list_offers") {
        Method::ListOffers
    } else if same_text(name, "disable_offer") {
        Method::DisableOffer
    } else if same_text(name, "list_addresses") {
        Method::ListAddresses
    } else if same_text(name, "list_invoices") {
        Method::ListInvoices
    } else {
        Method::Unknown(copy_text(name))
    }
}

pub(crate) proof fn lemma_names_differ()
    ensures
        method_named("get_info"@) == Method::<Seq<char>>::GetInfo,
        method_named("get_balance"@) == Method::<Seq<char>>::GetBalance,
        method_named("pay_invoice"@) == Method::<Seq<char>>::PayInvoice,
        method_named("pay_keysend"@) == Method::<Seq<char>>::PayKeysend,
        method_named("make_invoice"@) == Method::<Seq<char>>::MakeInvoice,
        method_named("lookup_invoice"@) == Method::<Seq<char>>::LookupInvoice,
        method_named("list_transactions"@) == Method::<Seq<char>>::ListTransactions,
        method_named("make_hold_invoice"@) == Method::<Seq<char>>::MakeHoldInvoice,
        method_named("cancel_hold_invoice"@) == Method::<Seq<char>>::CancelHoldInvoice,
        method_named("settle_hold_invoice"@) == Method::<Seq<char>>::SettleHoldInvoice,
        method_named("pay_onchain"@) == Method::<Seq<char>>::PayOnchain,
        method_named("make_new_address"@) == Method::<Seq<char>>::MakeNewAddress,
        method_named("pay_offer"@) == Method::<Seq<char>>::PayOffer,
        method_named("make_offer"@) == Method::<Seq<char>>::MakeOffer,
        method_named("lookup_offer"@) == Method::<Seq<char>>::LookupOffer,
        method_named("lookup_address"@) == Method::<Seq<char>>::LookupAddress,
        method_named("pay_bip321"@) == Method::<Seq<char>>::PayBip321,
        method_named("subscribe_notifications"@) == Method::<Seq<char>>::SubscribeNotifications,
        method_named("list_offers"@) == Method::<Seq<char>>::ListOffers,
        method_named("disable_offer"@) == Method::<Seq<char>>::DisableOffer,
        method_named("list_addresses"@) == Method::<Seq<char>>::ListAddresses,
        method_named("list_invoices"@) == Method::<Seq<char>>::ListInvoices,
{
    reveal_strlit("get_info");
    reveal_strlit("get_balance");
    reveal_strlit("pay_invoice");
    reveal_strlit("pay_keysend");
    reveal_strlit("make_invoice");
    reveal_strlit("lookup_invoice");
    reveal_strlit("list_transactions");
    reveal_strlit("make_hold_invoice");
    reveal_strlit("cancel_hold_invoice");
    reveal_strlit("settle_hold_invoice");
    reveal_strlit("pay_onchain");
    reveal_strlit("make_new_address");
    reveal_strlit("pay_offer");
    reveal_strlit("make_offer");
    reveal_strlit("lookup_offer");
    reveal_strlit("lookup_address");
    reveal_strlit("pay_bip321");
    reveal_strlit("subscribe_notifications");
    reveal_strlit("list_offers");
    reveal_strlit("disable_offer");
    reveal_strlit("list_addresses");
    reveal_strlit("list_invoices");
    assert("get_balance"@[0] == 'g');
    assert("pay_invoice"@[0] == 'p');
    assert("pay_invoice"@[4] == 'i');
    assert("pay_keysend"@[0] == 'p');
    assert("pay_keysend"@[4] == 'k');
    assert("make_invoice"@[0] == 'm');
    assert("lookup_invoice"@[7] == 'i');
    assert("list_transactions"@[0] == 'l');
    assert("make_hold_invoice"@[0] == 'm');
    assert("cancel_hold_invoice"@[0] == 'c');
    assert("settle_hold_invoice"@[0] == 's');
    assert("pay_onchain"@[0] == 'p');
    assert("pay_onchain"@[4] == 'o');
    assert("make_offer"@[0] == 'm');
    assert("lookup_offer"@[0] == 'l');
    assert("lookup_address"@[7] == 'a');
    assert("pay_bip321"@[0] == 'p');
    assert("list_offers"@[0] == 'l');
    assert("disable_offer"@[0] == 'd');
    assert("list_addresses"@[7] == 'd');
    assert("list_invoices"@[0] == 'l');
    assert("get_info"@.len() == 8);
    assert("get_balance"@.len() == 11);
    assert("pay_invoice"@.len() == 11);
    assert("pay_keysend"@.len() == 11);
    assert("make_invoice"@.len() == 12);
    assert("lookup_invoice"@.len() == 14);
    assert("list_transactions"@.len() == 17);
    assert("make_hold_invoice"@.len() == 17);
    assert("cancel_hold_invoice"@.len() == 19);
    assert("settle_hold_invoice"@.len() == 19);
    assert("pay_onchain"@.len() == 11);
    assert("make_new_address"@.len() == 16);
    assert("pay_offer"@.len() == 9);
    assert("make_offer"@.len() == 10);
    assert("lookup_offer"@.len() == 12);
    assert("lookup_address"@.len() == 14);
    assert("pay_bip321"@.len() == 10);
    assert("subscribe_notifications"@.len() == 23);
    assert("list_offers"@.len() == 11);
    assert("disable_offer"@.len() == 13);
    assert("list_addresses"@.len() == 14);
    assert("list_invoices"@.len() == 13);
}

/// Reading the name of a method gives the method back, and writing the method
/// that a name stands for gives the name back.
pub proof fn method_name_round_trip(m: Method<Seq<char>>, name: Seq<char>)
    ensures
        m !is Unknown ==> method_named(method_name(m)) == m,
        method_name(method_named(name)) == name,
{
    lemma_names_differ();
}

/// Whether two methods are the same.
pub fn same_method(a: &Method, b: &Method) -> (same: bool)
    ensures
        same == (a@ == b@),
{
    match (a, b) {
        (Method::GetInfo, Method::GetInfo) => true,
        (Method::GetBalance, Method::GetBalance) => true,
        (Method::PayInvoice, Method::PayInvoice) => true,
        (Method::PayKeysend, Method::PayKeysend) => true,
        (Method::MakeInvoice, Method::MakeInvoice) => true,
        (Method::LookupInvoice, Method::LookupInvoice) => true,
        (Method::ListTransactions, Method::ListTransactions) => true,
        (Method::MakeHoldInvoice, Method::MakeHoldInvoice) => true,
        (Method::CancelHoldInvoice, Method::CancelHoldInvoice) => true,
        (Method::SettleHoldInvoice, Method::SettleHoldInvoice) => true,
        (Method::PayOnchain, Method::PayOnchain) => true,
        (Method::MakeNewAddress, Method::MakeNewAddress) => true,
        (Method::PayOffer, Method::PayOffer) => true,
        (Method::MakeOffer, Method::MakeOffer) => true,
        (Method::LookupOffer, Method::LookupOffer) => true,
        (Method::LookupAddress, Method::LookupAddress) => true,
        (Method::PayBip321, Method::PayBip321) => true,
        (Method::SubscribeNotifications, Method::SubscribeNotifications) => true,
        (Method::ListOffers, Method::ListOffers) => true,
        (Method::DisableOffer, Method::DisableOffer) => true,
        (Method::ListAddresses, Method::ListAddresses) => true,
        (Method::ListInvoices, Method::ListInvoices) => true,
        (Method::Unknown(x), Method::Unknown(y)) => same_text(x.as_str(), y.as_str()),
        _ => false,
    }
}

/// What kind of error a request ran into.
#[derive(Debug, Clone, Copy, PartialEq, Eq, Structural)]
pub enum ErrorCode {
    RateLimited,
    NotImplemented,
    PaymentFailed,
    NotFound,
    QuotaExceeded,
    Restricted,
    Unauthorized,
    UnsupportedEncryption,
    Other,
}

/// Why a request was not carried out.
#[derive(Debug)]
pub struct NIP47Error<S = String> {
    pub code: ErrorCode,
    pub message: S,
}

impl View for NIP47Error {
    type V = NIP47Error<Seq<char>>;

    open spec fn view(&self) -> NIP47Error<Seq<char>> {
        NIP47Error { code: self.code, message: self.message@ }
    }
}

/// An error with the given code and message.
pub fn wallet_error(code: ErrorCode, message: &str) -> (out: NIP47Error)
    ensures
        out@ == (NIP47Error { code, message: message@ }),
{
    NIP47Error { code, message: copy_text(message) }
}

/// Whether money comes in or goes out.
#[derive(Debug, Clone, Copy, PartialEq, Eq, Structural)]
pub enum TransactionType {
    Incoming,
    Outgoing,
}

/// How far a transaction has come.
#[derive(Debug, Clone, Copy, PartialEq, Eq, Structural)]
pub enum TransactionState {
    Pending,
    Settled,
    Failed,
    Accepted,
}

#[derive(Debug)]
pub struct PayInvoiceRequest {
    pub invoice: String,
    pub amount: Option<u64>,
}

#[derive(Debug)]
pub struct PayKeysendRequest {
    pub pubkey: String,
    pub amount: u64,
}

#[derive(Debug)]
pub struct MakeInvoiceRequest {
    pub amount: u64,
    pub description: Option<String>,
    pub description_hash: Option<String>,
    pub expiry: Option<u64>,
}

#[derive(Debug)]
pub struct LookupInvoiceRequest {
    pub payment_hash: Option<String>,
    pub invoice: Option<String>,
}

#[derive(Debug)]
pub struct ListTransactionsRequest {
    pub from: Option<u64>,
    pub until: Option<u64>,
    pub limit: Option<u64>,
    pub offset: Option<u64>,
    pub unpaid: Option<bool>,
    pub transaction_type: Option<TransactionType>,
    pub payment_method: Option<PaymentMethod>,
}

#[derive(Debug)]
pub struct MakeHoldInvoiceRequest {
    pub payment_hash: String,
    pub amount: u64,
}

#[derive(Debug)]
pub struct CancelHoldInvoiceRequest {
    pub payment_hash: String,
}

#[derive(Debug)]
pub struct SettleHoldInvoiceRequest {
    pub preimage: String,
}

#[derive(Debug)]
pub struct PayOnchainRequest {
    pub address: String,
    /// In satoshis.
    pub amount: u64,
    pub feerate: Option<u64>,
}

#[derive(Debug)]
pub struct MakeOfferRequest {
    pub amount: u64,
    pub description: String,
    pub expiry: Option<u32>,
}

#[derive(Debug)]
pub struct PayOfferRequest {
    pub offer: String,
    pub amount: Option<u64>,
    pub payer_note: Option<String>,
}

#[derive(Debug)]
pub struct LookupOfferRequest {
    pub offer: String,
}

#[derive(Debug)]
pub struct DisableOfferRequest {
    pub offer: String,
}

#[derive(Debug)]
pub struct ListOffersRequest {
    pub active_only: Option<bool>,
    pub limit: Option<u64>,
    pub offset: Option<u64>,
}

#[derive(Debug)]
pub struct LookupAddressRequest {
    pub address: String,
}

#[derive(Debug)]
pub struct ListAddressesRequest {
    pub limit: Option<u64>,
    pub offset: Option<u64>,
}

#[derive(Debug)]
pub struct ListInvoicesRequest {
    pub from: Option<u64>,
    pub until: Option<u64>,
    pub limit: Option<u64>,
    pub offset: Option<u64>,
    pub state: Option<String>,
}

#[derive(Debug)]
pub struct PayBip321Request {
    pub uri: String,
}

#[derive(Debug)]
pub struct SubscribeNotificationsRequest {
    pub types: Vec<String>,
}

/// The parameters of a request.
#[derive(Debug)]
pub enum RequestParams {
    GetInfo,
    GetBalance,
    PayInvoice(PayInvoiceRequest),
    PayKeysend(PayKeysendRequest),
    MakeInvoice(MakeInvoiceRequest),
    LookupInvoice(LookupInvoiceRequest),
    ListTransactions(ListTransactionsRequest),
    MakeHoldInvoice(MakeHoldInvoiceRequest),
    CancelHoldInvoice(CancelHoldInvoiceRequest),
    SettleHoldInvoice(SettleHoldInvoiceRequest),
    PayOnchain(PayOnchainRequest),
    MakeNewAddress,
    PayOffer(PayOfferRequest),
    MakeOffer(MakeOfferRequest),
    LookupOffer(LookupOfferRequest),
    LookupAddress(LookupAddressRequest),
    PayBip321(PayBip321Request),
    SubscribeNotifications(SubscribeNotificationsRequest),
    ListOffers(ListOffersRequest),
    DisableOffer(DisableOfferRequest),
    ListAddresses(ListAddressesRequest),
    ListInvoices(ListInvoicesRequest),
    /// Parameters that belong to no method of the protocol.
    Other,
}

/// A request to the wallet.
#[derive(Debug)]
pub struct Request {
    pub method: Method,
    pub params: RequestParams,
}

#[derive(Debug)]
pub struct GetInfoResponse<S = String, M = Vec<Method>, N = Vec<String>> {
    pub alias: Option<S>,
    pub color: Option<S>,
    pub pubkey: Option<S>,
    pub network: Option<S>,
    pub block_height: Option<u32>,
    pub block_hash: Option<S>,
    pub methods: M,
    pub notifications: N,
}

#[derive(Debug, Clone, Copy)]
pub struct GetBalanceResponse {
    pub balance: u64,
    pub lightning_balance: Option<u64>,
    pub onchain_balance: Option<u64>,
}

#[derive(Debug)]
pub struct PayInvoiceResponse<S = String> {
    pub preimage: S,
    pub fees_paid: Option<u64>,
}

#[derive(Debug)]
pub struct PayOfferResponse<S = String> {
    pub preimage: Option<S>,
    pub fees_paid: Option<u64>,
}

#[derive(Debug)]
pub struct MakeInvoiceResponse<S = String> {
    pub invoice: S,
    pub payment_hash: Option<S>,
    pub description: Option<S>,
    pub description_hash: Option<S>,
    pub preimage: Option<S>,
    pub amount: Option<u64>,
    pub created_at: Option<u64>,
    pub expires_at: Option<u64>,
}

#[derive(Debug)]
pub struct LookupInvoiceResponse<S = String> {
    pub transaction_type: Option<TransactionType>,
    pub state: Option<TransactionState>,
    pub invoice: Option<S>,
    pub description: Option<S>,
    pub description_hash: Option<S>,
    pub preimage: Option<S>,
    pub payment_hash: S,
    pub amount: u64,
    pub fees_paid: u64,
    pub created_at: Option<u64>,
    pub expires_at: Option<u64>,
    pub settled_at: Option<u64>,
    pub payment_method: Option<PaymentMethod>,
}

impl View for LookupInvoiceResponse {
    type V = LookupInvoiceResponse<Seq<char>>;

    open spec fn view(&self) -> LookupInvoiceResponse<Seq<char>> {
        LookupInvoiceResponse {
            transaction_type: self.transaction_type,
            state: self.state,
            invoice: opt_text(self.invoice),
            description: opt_text(self.description),
            description_hash: opt_text(self.description_hash),
            preimage: opt_text(self.preimage),
            payment_hash: self.payment_hash@,
            amount: self.amount,
            fees_paid: self.fees_paid,
            created_at: self.created_at,
            expires_at: self.expires_at,
            settled_at: self.settled_at,
            payment_method: self.payment_method,
        }
    }
}

#[derive(Debug)]
pub struct MakeHoldInvoiceResponse<S = String> {
    pub transaction_type: TransactionType,
    pub invoice: Option<S>,
    pub description: Option<S>,
    pub description_hash: Option<S>,
    pub payment_hash: S,
    pub amount: u64,
    pub created_at: u64,
    pub expires_at: u64,
}

#[derive(Debug)]
pub struct MakeOfferResponse<S = String> {
    pub offer: S,
    pub description: Option<S>,
    pub amount: Option<u64>,
}

#[derive(Debug)]
pub struct LookupOfferResponse<S = String> {
    pub offer: S,
    pub description: Option<S>,
    pub amount: Option<u64>,
    pub active: bool,
    pub num_payments_received: u64,
    pub total_received: u64,
}

impl View for LookupOfferResponse {
    type V = LookupOfferResponse<Seq<char>>;

    open spec fn view(&self) -> LookupOfferResponse<Seq<char>> {
        LookupOfferResponse {
            offer: self.offer@,
            description: opt_text(self.description),
            amount: self.amount,
            active: self.active,
            num_payments_received: self.num_payments_received,
            total_received: self.total_received,
        }
    }
}

/// A payment to an address, in satoshis.
#[derive(Debug)]
pub struct AddressPayment<S = String> {
    pub txid: S,
    pub amount: u64,
    pub timestamp: u64,
}

impl View for AddressPayment {
    type V = AddressPayment<Seq<char>>;

    open spec fn view(&self) -> AddressPayment<Seq<char>> {
        AddressPayment { txid: self.txid@, amount: self.amount, timestamp: self.timestamp }
    }
}

#[derive(Debug)]
pub struct LookupAddressResponse<S = String, L = Vec<AddressPayment>> {
    pub address: S,
    pub total_received: u64,
    pub transactions: L,
}

/// An address with the satoshis that it received.
#[derive(Debug)]
pub struct ListedAddress<S = String> {
    pub address: S,
    pub total_received_sats: u64,
}

impl View for ListedAddress {
    type V = ListedAddress<Seq<char>>;

    open spec fn view(&self) -> ListedAddress<Seq<char>> {
        ListedAddress { address: self.address@, total_received_sats: self.total_received_sats }
    }
}

/// An incoming payment.
#[derive(Debug)]
pub struct ListedInvoice<S = String> {
    pub state: S,
    pub amount: u64,
    pub payment_hash: S,
    pub preimage: Option<S>,
    pub settled_at: Option<u64>,
}

impl View for ListedInvoice {
    type V = ListedInvoice<Seq<char>>;

    open spec fn view(&self) -> ListedInvoice<Seq<char>> {
        ListedInvoice {
            state: self.state@,
            amount: self.amount,
            payment_hash: self.payment_hash@,
            preimage: opt_text(self.preimage),
            settled_at: self.settled_at,
        }
    }
}

#[derive(Debug)]
pub struct PayBip321Response<S = String> {
    pub preimage: Option<S>,
    pub txid: Option<S>,
    pub fees_paid: Option<u64>,
    pub payment_method: S,
}

/// What a request came to.
#[derive(Debug)]
pub enum ResponseResult {
    GetInfo(GetInfoResponse),
    GetBalance(GetBalanceResponse),
    PayInvoice(PayInvoiceResponse),
    PayKeysend(PayInvoiceResponse),
    MakeInvoice(MakeInvoiceResponse),
    LookupInvoice(LookupInvoiceResponse),
    ListTransactions(Vec<LookupInvoiceResponse>),
    MakeHoldInvoice(MakeHoldInvoiceResponse),
    CancelHoldInvoice,
    SettleHoldInvoice,
    PayOnchain { txid: String },
    MakeNewAddress { address: String },
    PayOffer(PayOfferResponse),
    MakeOffer(MakeOfferResponse),
    LookupOffer(LookupOfferResponse),
    LookupAddress(LookupAddressResponse),
    PayBip321(PayBip321Response),
    SubscribeNotifications,
    ListOffers(Vec<LookupOfferResponse>),
    DisableOffer,
    ListAddresses(Vec<ListedAddress>),
    ListInvoices(Vec<ListedInvoice>),
}

/// A [`ResponseResult`] over sequences.
pub enum ResultView {
    GetInfo(GetInfoResponse<Seq<char>, Seq<Method<Seq<char>>>, Seq<Seq<char>>>),
    GetBalance(GetBalanceResponse),
    PayInvoice(PayInvoiceResponse<Seq<char>>),
    PayKeysend(PayInvoiceResponse<Seq<char>>),
    MakeInvoice(MakeInvoiceResponse<Seq<char>>),
    LookupInvoice(LookupInvoiceResponse<Seq<char>>),
    ListTransactions(Seq<LookupInvoiceResponse<Seq<char>>>),
    MakeHoldInvoice(MakeHoldInvoiceResponse<Seq<char>>),
    CancelHoldInvoice,
    SettleHoldInvoice,
    PayOnchain { txid: Seq<char> },
    MakeNewAddress { address: Seq<char> },
    PayOffer(PayOfferResponse<Seq<char>>),
    MakeOffer(MakeOfferResponse<Seq<char>>),
    LookupOffer(LookupOfferResponse<Seq<char>>),
    LookupAddress(LookupAddressResponse<Seq<char>, Seq<AddressPayment<Seq<char>>>>),
    PayBip321(PayBip321Response<Seq<char>>),
    SubscribeNotifications,
    ListOffers(Seq<LookupOfferResponse<Seq<char>>>),
    DisableOffer,
    ListAddresses(Seq<ListedAddress<Seq<char>>>),
    ListInvoices(Seq<ListedInvoice<Seq<char>>>),
}

impl View for ResponseResult {
    type V = ResultView;

    open spec fn view(&self) -> ResultView {
        match *self {
            ResponseResult::GetInfo(r) => ResultView::GetInfo(
                GetInfoResponse {
                    alias: opt_text(r.alias),
                    color: opt_text(r.color),
                    pubkey: opt_text(r.pubkey),
                    network: opt_text(r.network),
                    block_height: r.block_height,
                    block_hash: opt_text(r.block_hash),
                    methods: views(r.methods@),
                    notifications: texts(r.notifications@),
                },
            ),
            ResponseResult::GetBalance(r) => ResultView::GetBalance(r),
            ResponseResult::PayInvoice(r) => ResultView::PayInvoice(
                PayInvoiceResponse { preimage: r.preimage@, fees_paid: r.fees_paid },
            ),
            ResponseResult::PayKeysend(r) => ResultView::PayKeysend(
                PayInvoiceResponse { preimage: r.preimage@, fees_paid: r.fees_paid },
            ),
            ResponseResult::MakeInvoice(r) => ResultView::MakeInvoice(
                MakeInvoiceResponse {
                    invoice: r.invoice@,
                    payment_hash: opt_text(r.payment_hash),
                    description: opt_text(r.description),
                    description_hash: opt_text(r.description_hash),
                    preimage: opt_text(r.preimage),
                    amount: r.amount,
                    created_at: r.created_at,
                    expires_at: r.expires_at,
                },
            ),
            ResponseResult::LookupInvoice(r) => ResultView::LookupInvoice(r@),
            ResponseResult::ListTransactions(list) => ResultView::ListTransactions(views(list@)),
            ResponseResult::MakeHoldInvoice(r) => ResultView::MakeHoldInvoice(
                MakeHoldInvoiceResponse {
                    transaction_type: r.transaction_type,
                    invoice: opt_text(r.invoice),
                    description: opt_text(r.description),
                    description_hash: opt_text(r.description_hash),
                    payment_hash: r.payment_hash@,
                    amount: r.amount,
                    created_at: r.created_at,
                    expires_at: r.expires_at,
                },
            ),
            ResponseResult::CancelHoldInvoice => ResultView::CancelHoldInvoice,
            ResponseResult::SettleHoldInvoice => ResultView::SettleHoldInvoice,
            ResponseResult::PayOnchain { txid } => ResultView::PayOnchain { txid: txid@ },
            ResponseResult::MakeNewAddress { address } => ResultView::MakeNewAddress {
                address: address@,
            },
            ResponseResult::PayOffer(r) => ResultView::PayOffer(
                PayOfferResponse { preimage: opt_text(r.preimage), fees_paid: r.fees_paid },
            ),
            ResponseResult::MakeOffer(r) => ResultView::MakeOffer(
                MakeOfferResponse {
                    offer: r.offer@,
                    description: opt_text(r.description),
                    amount: r.amount,
                },
            ),
            ResponseResult::LookupOffer(r) => ResultView::LookupOffer(r@),
            ResponseResult::LookupAddress(r) => ResultView::LookupAddress(
                LookupAddressResponse {
                    address: r.address@,
                    total_received: r.total_received,
                    transactions: views(r.transactions@),
                },
            ),
            ResponseResult::PayBip321(r) => ResultView::PayBip321(
                PayBip321Response {
                    preimage: opt_text(r.preimage),
                    txid: opt_text(r.txid),
                    fees_paid: r.fees_paid,
                    payment_method: r.payment_method@,
                },
            ),
            ResponseResult::SubscribeNotifications => ResultView::SubscribeNotifications,
            ResponseResult::ListOffers(list) => ResultView::ListOffers(views(list@)),
            ResponseResult::DisableOffer => ResultView::DisableOffer,
            ResponseResult::ListAddresses(list) => ResultView::ListAddresses(views(list@)),
            ResponseResult::ListInvoices(list) => ResultView::ListInvoices(views(list@)),
        }
    }
}

/// An answer to a request: a result or an error.
#[derive(Debug)]
pub struct Response {
    pub result_type: Method,
    pub error: Option<NIP47Error>,
    pub result: Option<ResponseResult>,
}

/// A [`Response`] over sequences.
pub struct ResponseView {
    pub result_type: Method<Seq<char>>,
    pub error: Option<NIP47Error<Seq<char>>>,
    pub result: Option<ResultView>,
}

impl View for Response {
    type V = ResponseView;

    open spec fn view(&self) -> ResponseView {
        ResponseView {
            result_type: self.result_type@,
            error: option_view(self.error),
            result: option_view(self.result),
        }
    }
}

/// The answer that tells an error.
pub open spec fn failure(
    method: Method<Seq<char>>,
    error: NIP47Error<Seq<char>>,
) -> ResponseView {
    ResponseView { result_type: method, error: Some(error), result: None }
}

/// The answer that tells a result.
pub open spec fn success(method: Method<Seq<char>>, result: ResultView) -> ResponseView {
    ResponseView { result_type: method, error: None, result: Some(result) }
}

/// The answer that tells an error.
pub fn failed(method: &Method, error: NIP47Error) -> (out: Response)
    ensures
        out@ == failure(method@, error@),
{
    Response { result_type: method.copy(), error: Some(error), result: None }
}

} // verus!
