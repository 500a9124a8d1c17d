//! Carrying out valid requests, step by step: each step gives the result or
//! asks the node for something.

use vstd::prelude::*;

#[allow(unused_imports)]
use crate::lightning::hex::pairs_aligned;
use crate::lightning::hex::hex_pairs_aligned;
#[allow(unused_imports)]
use crate::lightning::ldk_service::service_error_text;
use crate::lightning::ldk_service::{LdkBalance, LdkServiceError, Network};
use crate::lightning::node::NodeCall;
#[allow(unused_imports)]
use crate::lightning::parse::uri_reading;
use crate::lightning::parse::{read_uri, PaymentUri};
#[allow(unused_imports)]
use crate::lightning::parse::UriView;
#[allow(unused_imports)]
use crate::lightning::payments::{
    filtered_payments, hash_of_kind, method_of_kind, opt_hex, page_limit, preimage_of_kind,
};
use crate::lightning::payments::{
    filter_payments, payment_hash_from_kind, payment_method_from_kind, preimage_from_kind,
    PaymentDetails, PaymentDirection, PaymentFilter, PaymentStatus,
};
use crate::lightning::service::LdkService;
#[allow(unused_imports)]
use crate::lightning::service::{
    find_by_hash_call, find_by_invoice_call, invoice_call, keysend_call, pay_invoice_call,
    pay_offer_call, pay_onchain_call, text_or, CallView, ErrorView,
};
use crate::nip47::{
    wallet_error, ErrorCode, GetBalanceResponse, GetInfoResponse, ListInvoicesRequest,
    ListedInvoice, LookupInvoiceResponse, MakeHoldInvoiceResponse, MakeInvoiceResponse, Method,
    NIP47Error, PayInvoiceResponse, RequestParams, ResponseResult, TransactionState,
    TransactionType,
};
#[allow(unused_imports)]
use crate::nip47::ResultView;
#[allow(unused_imports)]
use crate::state::page::{page, page_end, page_start};
#[allow(unused_imports)]
use crate::text::{opt_text, texts};
use crate::text::{as_slice, copy_opt_text, copy_text, join, same_text};
#[allow(unused_imports)]
use crate::views::{result_view, views};
#[allow(unused_imports)]
use crate::wallet::validate::other_error;

verus! {

/// What the wallet knows when it carries out a request.
#[derive(Debug)]
pub struct WalletContext<'a> {
    /// The node, if one is attached.
    pub service: Option<&'a LdkService>,
    /// The configured name of the node.
    pub alias: Option<String>,
    /// The public key of the service itself.
    pub own_pubkey: String,
    /// The methods that the client may call.
    pub methods: Vec<Method>,
    /// The time in seconds since the epoch.
    pub now: u64,
}

/// A step in carrying out a request.
#[derive(Debug)]
pub enum WalletStep {
    /// The request is carried out, or cannot be.
    Executed(Result<ResponseResult, NIP47Error>),
    /// The node has to answer first.
    Ask(NodeCall),
    /// A figure does not fit into 64 bits, or what came back is no answer to
    /// what was asked: there is no result.
    Halt,
}

/// A [`WalletStep`] over sequences.
pub enum StepView {
    Executed(Result<ResultView, NIP47Error<Seq<char>>>),
    Ask(CallView),
    Halt,
}

impl View for WalletStep {
    type V = StepView;

    open spec fn view(&self) -> StepView {
        match *self {
            WalletStep::Executed(r) => StepView::Executed(result_view(r)),
            WalletStep::Ask(call) => StepView::Ask(call@),
            WalletStep::Halt => StepView::Halt,
        }
    }
}

/// The step that gives a result.
pub open spec fn done(r: ResultView) -> StepView {
    StepView::Executed(Ok(r))
}

/// The step that gives an error.
pub open spec fn failing(e: NIP47Error<Seq<char>>) -> StepView {
    StepView::Executed(Err(e))
}

/// An error of the node, as the client is told.
pub open spec fn ldk_error(operation: Seq<char>, code: ErrorCode, e: ErrorView) -> NIP47Error<
    Seq<char>,
> {
    NIP47Error { code, message: "ldk "@ + operation + " failed: "@ + service_error_text(e) }
}

/// The error where no node is attached.
pub open spec fn unavailable() -> NIP47Error<Seq<char>> {
    other_error("ldk service unavailable"@)
}

/// The step that makes a request to the node, or tells why it cannot be made.
pub open spec fn ask_or_fail(
    call: Result<CallView, ErrorView>,
    operation: Seq<char>,
    code: ErrorCode,
) -> StepView {
    match call {
        Ok(call) => StepView::Ask(call),
        Err(e) => failing(ldk_error(operation, code, e)),
    }
}

pub(crate) fn executed(r: ResponseResult) -> (out: WalletStep)
    ensures
        out@ == done(r@),
{
    WalletStep::Executed(Ok(r))
}

pub(crate) fn refused(e: NIP47Error) -> (out: WalletStep)
    ensures
        out@ == failing(e@),
{
    WalletStep::Executed(Err(e))
}

pub(crate) fn other(message: &str) -> (out: WalletStep)
    ensures
        out@ == failing(other_error(message@)),
{
    refused(wallet_error(ErrorCode::Other, message))
}

/// An error of the node, as the client is told.
pub fn map_ldk_service_error(operation: &str, code: ErrorCode, error: &LdkServiceError) -> (out:
    NIP47Error)
    ensures
        out@ == ldk_error(operation@, code, error@),
{
    let start: String = join("ldk ", operation);
    let head: String = join(start.as_str(), " failed: ");
    NIP47Error { code, message: join(head.as_str(), error.to_string().as_str()) }
}

pub(crate) fn ldk_failure(operation: &str, code: ErrorCode, error: LdkServiceError) -> (out: WalletStep)
    ensures
        out@ == failing(ldk_error(operation@, code, error@)),
{
    refused(map_ldk_service_error(operation, code, &error))
}

fn ask(call: Result<NodeCall, LdkServiceError>, operation: &str, code: ErrorCode) -> (out:
    WalletStep)
    ensures
        out@ == ask_or_fail(result_view(call), operation@, code),
{
    match call {
        Ok(call) => WalletStep::Ask(call),
        Err(e) => ldk_failure(operation, code, e),
    }
}

/// The kinds of events that a client is told of.
pub open spec fn wallet_notifications() -> Seq<Seq<char>> {
    seq!["payment_received"@, "payment_sent"@, "hold_invoice_accepted"@]
}

/// What the wallet tells of itself.
pub open spec fn info_result(
    ctx: WalletContext,
    pubkey: Seq<char>,
    network: Seq<char>,
    height: u32,
    notifications: Seq<Seq<char>>,
) -> ResultView {
    ResultView::GetInfo(
        GetInfoResponse {
            alias: Some(text_or(opt_text(ctx.alias), "ldk-controller"@)),
            color: None,
            pubkey: Some(pubkey),
            network: Some(network),
            block_height: Some(height),
            block_hash: None,
            methods: views(ctx.methods@),
            notifications,
        },
    )
}

fn copy_methods(methods: &Vec<Method>) -> (out: Vec<Method>)
    ensures
        views(out@) == views(methods@),
{
    let mut out: Vec<Method> = Vec::new();
    let mut i: usize = 0;
    while i < methods.len()
        invariant
            i <= methods.len(),
            out.len() == i,
            forall|k: int| 0 <= k < i ==> (#[trigger] out@[k])@ == methods@[k]@,
        decreases methods.len() - i,
    {
        out.push(methods[i].copy());
        i += 1;
    }
    assert(views(out@) =~= views(methods@));
    out
}

pub(crate) fn tell_info(
    ctx: &WalletContext,
    pubkey: String,
    network: &str,
    height: u32,
    notifications: Vec<String>,
) -> (out: ResponseResult)
    ensures
        out@ == info_result(*ctx, pubkey@, network@, height, texts(notifications@)),
{
    let alias: String = match &ctx.alias {
        Some(a) => copy_text(a.as_str()),
        None => copy_text("ldk-controller"),
    };
    ResponseResult::GetInfo(
        GetInfoResponse {
            alias: Some(alias),
            color: None,
            pubkey: Some(pubkey),
            network: Some(copy_text(network)),
            block_height: Some(height),
            block_hash: None,
            methods: copy_methods(&ctx.methods),
            notifications,
        },
    )
}

/// The result that tells a balance.
pub open spec fn balance_result(b: LdkBalance) -> ResultView {
    ResultView::GetBalance(
        GetBalanceResponse {
            balance: b.total_msat,
            lightning_balance: Some(b.lightning_msat),
            onchain_balance: Some(b.onchain_msat),
        },
    )
}

/// A payment, as a client is told of it.
pub open spec fn lookup_response(p: PaymentDetails) -> LookupInvoiceResponse<Seq<char>> {
    LookupInvoiceResponse {
        transaction_type: Some(
            match p.direction {
                PaymentDirection::Inbound => TransactionType::Incoming,
                PaymentDirection::Outbound => TransactionType::Outgoing,
            },
        ),
        state: Some(
            match p.status {
                PaymentStatus::Pending => TransactionState::Pending,
                PaymentStatus::Succeeded => TransactionState::Settled,
                PaymentStatus::Failed => TransactionState::Failed,
            },
        ),
        invoice: None,
        description: None,
        description_hash: None,
        preimage: opt_hex(preimage_of_kind(p.kind)),
        payment_hash: text_or(opt_hex(hash_of_kind(p.kind)), Seq::empty()),
        amount: match p.amount_msat {
            Some(n) => n,
            None => 0,
        },
        fees_paid: match p.fee_paid_msat {
            Some(n) => n,
            None => 0,
        },
        created_at: if p.latest_update_timestamp > 0 {
            Some(p.latest_update_timestamp)
        } else {
            None
        },
        expires_at: None,
        settled_at: if p.status == PaymentStatus::Succeeded {
            Some(p.latest_update_timestamp)
        } else {
            None
        },
        payment_method: method_of_kind(p.kind),
    }
}

/// A payment, as a client is told of it.
pub fn payment_details_to_lookup_response(payment: &PaymentDetails) -> (out: LookupInvoiceResponse)
    ensures
        out@ == lookup_response(*payment),
{
    let payment_hash: String = match payment_hash_from_kind(&payment.kind) {
        Some(hash) => hash,
        None => {
            proof {
                reveal_strlit("");
                assert(""@ =~= Seq::empty());
            }
            copy_text("")
        },
    };
    LookupInvoiceResponse {
        transaction_type: Some(
            match payment.direction {
                PaymentDirection::Inbound => TransactionType::Incoming,
                PaymentDirection::Outbound => TransactionType::Outgoing,
            },
        ),
        state: Some(
            match payment.status {
                PaymentStatus::Pending => TransactionState::Pending,
                PaymentStatus::Succeeded => TransactionState::Settled,
                PaymentStatus::Failed => TransactionState::Failed,
            },
        ),
        invoice: None,
        description: None,
        description_hash: None,
        preimage: preimage_from_kind(&payment.kind),
        payment_hash,
        amount: match payment.amount_msat {
            Some(n) => n,
            None => 0,
        },
        fees_paid: match payment.fee_paid_msat {
            Some(n) => n,
            None => 0,
        },
        created_at: if payment.latest_update_timestamp > 0 {
            Some(payment.latest_update_timestamp)
        } else {
            None
        },
        expires_at: None,
        settled_at: if payment.status == PaymentStatus::Succeeded {
            Some(payment.latest_update_timestamp)
        } else {
            None
        },
        payment_method: payment_method_from_kind(&payment.kind),
    }
}

/// The payment that is told where no node is attached.
pub open spec fn sample_lookup(now: u64) -> LookupInvoiceResponse<Seq<char>> {
    LookupInvoiceResponse {
        transaction_type: Some(TransactionType::Outgoing),
        state: Some(TransactionState::Settled),
        invoice: None,
        description: None,
        description_hash: None,
        preimage: None,
        payment_hash: "00"@,
        amount: 0,
        fees_paid: 0,
        created_at: Some(now),
        expires_at: None,
        settled_at: None,
        payment_method: None,
    }
}

/// The invoice that is told where no node is attached.
pub open spec fn sample_invoice() -> MakeInvoiceResponse<Seq<char>> {
    MakeInvoiceResponse {
        invoice: "dummy_invoice"@,
        payment_hash: None,
        description: None,
        description_hash: None,
        preimage: None,
        amount: None,
        created_at: None,
        expires_at: None,
    }
}

/// The hold invoice that is told, for which the node is not asked.
pub open spec fn sample_hold_invoice(now: u64) -> MakeHoldInvoiceResponse<Seq<char>> {
    MakeHoldInvoiceResponse {
        transaction_type: TransactionType::Incoming,
        invoice: None,
        description: None,
        description_hash: None,
        payment_hash: "00"@,
        amount: 0,
        created_at: now,
        expires_at: now,
    }
}

/// The error for a failed search of a payment.
pub open spec fn lookup_error(e: ErrorView) -> NIP47Error<Seq<char>> {
    match e {
        LdkServiceError::PaymentNotFound(m) => NIP47Error {
            code: ErrorCode::NotFound,
            message: "payment not found: "@ + m,
        },
        _ => ldk_error("lookup_invoice"@, ErrorCode::Other, e),
    }
}

/// The step that searches for a payment, or tells why it cannot be searched.
pub open spec fn lookup_step(call: Result<CallView, ErrorView>) -> StepView {
    match call {
        Ok(call) => StepView::Ask(call),
        Err(e) => failing(lookup_error(e)),
    }
}

pub(crate) fn lookup_failure(e: LdkServiceError) -> (out: WalletStep)
    ensures
        out@ == failing(lookup_error(e@)),
{
    match e {
        LdkServiceError::PaymentNotFound(m) => refused(
            wallet_error(ErrorCode::NotFound, join("payment not found: ", m.as_str()).as_str()),
        ),
        e => ldk_failure("lookup_invoice", ErrorCode::Other, e),
    }
}

fn ask_for_payment(call: Result<NodeCall, LdkServiceError>) -> (out: WalletStep)
    ensures
        out@ == lookup_step(result_view(call)),
{
    match call {
        Ok(call) => WalletStep::Ask(call),
        Err(e) => lookup_failure(e),
    }
}

/// The filter that a list of transactions asks for.
pub open spec fn direction_of(t: Option<TransactionType>) -> Option<PaymentDirection> {
    match t {
        Some(TransactionType::Incoming) => Some(PaymentDirection::Inbound),
        Some(TransactionType::Outgoing) => Some(PaymentDirection::Outbound),
        None => None,
    }
}

/// A client is told of every payment how it was made, and when it settled if and
/// only if it succeeded.
pub proof fn every_payment_has_a_method(p: PaymentDetails)
    ensures
        lookup_response(p).payment_method is Some,
        lookup_response(p).settled_at is Some <==> p.status == PaymentStatus::Succeeded,
{
}

/// The payments, as a client is told of them.
pub open spec fn lookup_responses(payments: Seq<PaymentDetails>) -> Seq<
    LookupInvoiceResponse<Seq<char>>,
> {
    payments.map_values(|p: PaymentDetails| lookup_response(p))
}

/// The word for the state of an incoming payment.
pub open spec fn invoice_state(s: PaymentStatus) -> Seq<char> {
    match s {
        PaymentStatus::Pending => "pending"@,
        PaymentStatus::Succeeded => "settled"@,
        PaymentStatus::Failed => "failed"@,
    }
}

/// An incoming payment, as it is listed.
pub open spec fn listed_invoice(p: PaymentDetails) -> ListedInvoice<Seq<char>> {
    ListedInvoice {
        state: invoice_state(p.status),
        amount: lookup_response(p).amount,
        payment_hash: lookup_response(p).payment_hash,
        preimage: lookup_response(p).preimage,
        settled_at: lookup_response(p).settled_at,
    }
}

/// The payment is an incoming one over Lightning, in the state that is asked
/// for.
pub open spec fn is_listed(state: Option<Seq<char>>) -> spec_fn(PaymentDetails) -> bool {
    |p: PaymentDetails|
        hash_of_kind(p.kind) is Some && (state matches Some(s) ==> invoice_state(p.status) == s)
}

/// The incoming payments between two times, newest first.
pub open spec fn incoming_between(
    payments: Seq<PaymentDetails>,
    from: Option<u64>,
    until: Option<u64>,
) -> Seq<PaymentDetails> {
    filtered_payments(
        payments,
        PaymentFilter {
            from,
            until,
            unpaid: Some(true),
            direction: Some(PaymentDirection::Inbound),
            payment_method: None,
        },
        None,
        None,
    )
}

/// The page that a list of the given length is cut to.
pub open spec fn cut<T>(list: Seq<T>, limit: Option<u64>, offset: Option<u64>) -> Seq<T> {
    page(
        list,
        match offset {
            Some(n) => n as int,
            None => 0,
        },
        page_limit(limit, list.len() as int),
    )
}

/// The incoming payments that a client asks for, as they are listed.
pub open spec fn listed_invoices(payments: Seq<PaymentDetails>, r: ListInvoicesRequest) -> Seq<
    ListedInvoice<Seq<char>>,
> {
    cut(
        incoming_between(payments, r.from, r.until).filter(is_listed(opt_text(r.state))),
        r.limit,
        r.offset,
    ).map_values(|p: PaymentDetails| listed_invoice(p))
}

/// The ends of the page that a list of `n` elements is cut to.
pub(crate) fn cut_ends(n: usize, limit: Option<u64>, offset: Option<u64>) -> (out: (usize, usize))
    ensures
        out.0 <= out.1 <= n,
        out.0 == page_start(
            n as int,
            match offset {
                Some(o) => o as int,
                None => 0,
            },
        ),
        out.1 == page_end(
            n as int,
            match offset {
                Some(o) => o as int,
                None => 0,
            },
            page_limit(limit, n as int),
        ),
{
    let start: usize = match offset {
        Some(o) => if o < n as u64 {
            o as usize
        } else {
            n
        },
        None => 0,
    };
    let end: usize = match limit {
        Some(l) => if l < (n - start) as u64 {
            start + l as usize
        } else {
            n
        },
        None => n,
    };
    (start, end)
}

pub(crate) fn tell_transactions(payments: &Vec<PaymentDetails>) -> (out: Vec<LookupInvoiceResponse>)
    ensures
        views(out@) == lookup_responses(payments@),
{
    let mut out: Vec<LookupInvoiceResponse> = Vec::new();
    let mut i: usize = 0;
    while i < payments.len()
        invariant
            i <= payments.len(),
            out.len() == i,
            forall|k: int| 0 <= k < i ==> (#[trigger] out@[k])@ == lookup_response(payments@[k]),
        decreases payments.len() - i,
    {
        out.push(payment_details_to_lookup_response(&payments[i]));
        i += 1;
    }
    assert(views(out@) =~= lookup_responses(payments@));
    out
}

fn state_word(s: PaymentStatus) -> (out: &'static str)
    ensures
        out@ == invoice_state(s),
{
    match s {
        PaymentStatus::Pending => "pending",
        PaymentStatus::Succeeded => "settled",
        PaymentStatus::Failed => "failed",
    }
}

pub(crate) fn list_invoices(payments: &Vec<PaymentDetails>, r: &ListInvoicesRequest) -> (out: Vec<
    ListedInvoice,
>)
    ensures
        views(out@) == listed_invoices(payments@, *r),
{
    let filter: PaymentFilter = PaymentFilter {
        from: r.from,
        until: r.until,
        unpaid: Some(true),
        direction: Some(PaymentDirection::Inbound),
        payment_method: None,
    };
    let incoming: Vec<PaymentDetails> = filter_payments(payments, &filter, None, None);
    let ghost pred = is_listed(opt_text(r.state));
    let mut kept: Vec<PaymentDetails> = Vec::new();
    let mut i: usize = 0;
    proof {
        reveal(Seq::filter);
        assert(incoming@.take(0) =~= Seq::empty());
        assert(kept@ =~= incoming@.take(0).filter(pred));
    }
    while i < incoming.len()
        invariant
            pred == is_listed(opt_text(r.state)),
            i <= incoming.len(),
            kept@ == incoming@.take(i as int).filter(pred),
        decreases incoming.len() - i,
    {
        let p: PaymentDetails = incoming[i];
        proof {
            reveal(Seq::filter);
            assert(incoming@.take(i + 1).drop_last() =~= incoming@.take(i as int));
            assert(incoming@.take(i + 1).last() == p);
        }
        let has_hash: bool = payment_hash_from_kind(&p.kind).is_some();
        let wanted: bool = match &r.state {
            Some(s) => same_text(state_word(p.status), s.as_str()),
            None => true,
        };
        if has_hash && wanted {
            kept.push(p);
        }
        i += 1;
    }
    assert(incoming@.take(i as int) =~= incoming@);
    let (start, end) = cut_ends(kept.len(), r.limit, r.offset);
    let ghost paged = cut(kept@, r.limit, r.offset);
    let mut out: Vec<ListedInvoice> = Vec::new();
    let mut j: usize = start;
    while j < end
        invariant
            start <= j <= end <= kept.len(),
            paged == kept@.subrange(start as int, end as int),
            out.len() == j - start,
            forall|k: int| 0 <= k < j - start ==> (#[trigger] out@[k])@ == listed_invoice(paged[k]),
        decreases end - j,
    {
        let p: PaymentDetails = kept[j];
        let told: LookupInvoiceResponse = payment_details_to_lookup_response(&p);
        assert(paged[j - start] == p);
        out.push(
            ListedInvoice {
                state: copy_text(state_word(p.status)),
                amount: told.amount,
                payment_hash: told.payment_hash,
                preimage: told.preimage,
                settled_at: told.settled_at,
            },
        );
        j += 1;
    }
    assert(views(out@) =~= paged.map_values(|p: PaymentDetails| listed_invoice(p)));
    out
}

/// The way that a payment URI is paid.
pub enum UriWay {
    Bolt11,
    Bolt12,
    Onchain,
    Nothing,
}

/// The way that a payment URI is paid: an invoice before an offer, and an offer
/// before an address.
pub open spec fn uri_way(uri: UriView) -> UriWay {
    if uri.lightning.len() > 0 {
        UriWay::Bolt11
    } else if uri.offers.len() > 0 {
        UriWay::Bolt12
    } else if uri.address is Some {
        UriWay::Onchain
    } else {
        UriWay::Nothing
    }
}

/// The first step in paying a payment URI that was read. Of several invoices or
/// offers the first is paid.
pub open spec fn pay_uri_step(
    uri: Result<UriView, Seq<char>>,
    network: Network,
) -> StepView {
    match uri {
        Err(m) => failing(other_error("invalid BIP-321 URI: "@ + m)),
        Ok(uri) => if uri.amount_sat matches Some(sat) && sat * 1000 > u64::MAX {
            StepView::Halt
        } else {
            let amount_msat = match uri.amount_sat {
                Some(sat) => Some((sat * 1000) as u64),
                None => None,
            };
            match uri_way(uri) {
                UriWay::Bolt11 => ask_or_fail(
                    pay_invoice_call(uri.lightning[0], amount_msat),
                    "pay_bip321/bolt11"@,
                    ErrorCode::PaymentFailed,
                ),
                UriWay::Bolt12 => ask_or_fail(
                    pay_offer_call(uri.offers[0], None),
                    "pay_bip321/bolt12"@,
                    ErrorCode::PaymentFailed,
                ),
                UriWay::Onchain => match uri.amount_sat {
                    None => failing(other_error("on-chain payment requires amount"@)),
                    Some(sat) => ask_or_fail(
                        pay_onchain_call(uri.address->0, network, sat),
                        "pay_bip321/onchain"@,
                        ErrorCode::PaymentFailed,
                    ),
                },
                UriWay::Nothing => failing(other_error("no supported payment method in URI"@)),
            }
        },
    }
}

/// Starts to pay a payment URI that was read.
pub fn pay_uri(uri: &Result<PaymentUri, String>, service: &LdkService) -> (out: WalletStep)
    ensures
        out@ == pay_uri_step(result_view(*uri), service.net()),
{
    let uri: &PaymentUri = match uri {
        Ok(u) => u,
        Err(m) => {
            return other(join("invalid BIP-321 URI: ", m.as_str()).as_str());
        },
    };
    let amount_msat: Option<u64> = match uri.amount_sat {
        Some(sat) => match sat.checked_mul(1000) {
            Some(msat) => Some(msat),
            None => {
                return WalletStep::Halt;
            },
        },
        None => None,
    };
    assert(uri@.lightning.len() == uri.lightning@.len());
    assert(uri@.offers.len() == uri.offers@.len());
    if uri.lightning.len() > 0 {
        assert(uri@.lightning[0] == uri.lightning@[0]@);
        return ask(
            service.pay_invoice(uri.lightning[0].as_str(), amount_msat),
            "pay_bip321/bolt11",
            ErrorCode::PaymentFailed,
        );
    }
    if uri.offers.len() > 0 {
        assert(uri@.offers[0] == uri.offers@[0]@);
        return ask(
            service.pay_offer(uri.offers[0].as_str(), amount_msat, None),
            "pay_bip321/bolt12",
            ErrorCode::PaymentFailed,
        );
    }
    if let Some(address) = &uri.address {
        return match uri.amount_sat {
            Some(sat) => ask(
                service.pay_onchain(address.as_str(), sat, None),
                "pay_bip321/onchain",
                ErrorCode::PaymentFailed,
            ),
            None => other("on-chain payment requires amount"),
        };
    }
    other("no supported payment method in URI")
}

/// The first step in carrying out a request that does not concern the service's
/// own records.
pub open spec fn begin(params: RequestParams, ctx: WalletContext) -> StepView {
    match params {
        RequestParams::GetInfo => match ctx.service {
            Some(_) => StepView::Ask(NodeCall::Status),
            None => done(info_result(ctx, ctx.own_pubkey@, "regtest"@, 0, Seq::empty())),
        },
        RequestParams::GetBalance => match ctx.service {
            Some(_) => StepView::Ask(NodeCall::SyncWallets),
            None => done(
                balance_result(LdkBalance { total_msat: 0, lightning_msat: 0, onchain_msat: 0 }),
            ),
        },
        RequestParams::PayInvoice(p) => match ctx.service {
            Some(_) => ask_or_fail(
                pay_invoice_call(p.invoice@, p.amount),
                "pay_invoice"@,
                ErrorCode::PaymentFailed,
            ),
            None => done(
                ResultView::PayInvoice(
                    PayInvoiceResponse { preimage: "00"@, fees_paid: Some(0) },
                ),
            ),
        },
        RequestParams::PayKeysend(p) => match ctx.service {
            Some(_) => ask_or_fail(
                keysend_call(p.pubkey@, p.amount),
                "pay_keysend"@,
                ErrorCode::PaymentFailed,
            ),
            None => done(
                ResultView::PayKeysend(
                    PayInvoiceResponse { preimage: "00"@, fees_paid: Some(0) },
                ),
            ),
        },
        RequestParams::MakeInvoice(p) => match ctx.service {
            Some(_) => ask_or_fail(
                invoice_call(
                    p.amount,
                    opt_text(p.description),
                    opt_text(p.description_hash),
                    p.expiry,
                ),
                "make_invoice"@,
                ErrorCode::Other,
            ),
            None => done(ResultView::MakeInvoice(sample_invoice())),
        },
        RequestParams::LookupInvoice(p) => match ctx.service {
            Some(_) => match p.invoice {
                Some(invoice) => lookup_step(find_by_invoice_call(invoice@)),
                None => match p.payment_hash {
                    Some(hash) => if pairs_aligned(hash@) {
                        lookup_step(find_by_hash_call(hash@))
                    } else {
                        StepView::Halt
                    },
                    None => failing(other_error("payment_hash or invoice is required"@)),
                },
            },
            None => done(ResultView::LookupInvoice(sample_lookup(ctx.now))),
        },
        RequestParams::ListTransactions(_) => match ctx.service {
            Some(_) => StepView::Ask(NodeCall::ListPayments),
            None => done(ResultView::ListTransactions(Seq::empty())),
        },
        RequestParams::ListInvoices(_) => match ctx.service {
            Some(_) => StepView::Ask(NodeCall::ListPayments),
            None => done(ResultView::ListInvoices(Seq::empty())),
        },
        RequestParams::MakeHoldInvoice(_) => done(
            ResultView::MakeHoldInvoice(sample_hold_invoice(ctx.now)),
        ),
        RequestParams::CancelHoldInvoice(_) => done(ResultView::CancelHoldInvoice),
        RequestParams::SettleHoldInvoice(_) => done(ResultView::SettleHoldInvoice),
        RequestParams::MakeNewAddress => match ctx.service {
            Some(_) => StepView::Ask(NodeCall::NewAddress),
            None => failing(unavailable()),
        },
        RequestParams::PayOnchain(p) => match ctx.service {
            Some(service) => ask_or_fail(
                pay_onchain_call(p.address@, service.net(), p.amount),
                "pay_onchain"@,
                ErrorCode::PaymentFailed,
            ),
            None => failing(unavailable()),
        },
        RequestParams::MakeOffer(p) => match ctx.service {
            Some(_) => StepView::Ask(
                NodeCall::ReceiveOffer {
                    amount_msat: p.amount,
                    description: p.description@,
                    expiry_secs: p.expiry,
                },
            ),
            None => failing(unavailable()),
        },
        RequestParams::PayOffer(p) => match ctx.service {
            Some(_) => ask_or_fail(
                pay_offer_call(p.offer@, opt_text(p.payer_note)),
                "pay_offer"@,
                ErrorCode::PaymentFailed,
            ),
            None => failing(unavailable()),
        },
        RequestParams::PayBip321(p) => match ctx.service {
            Some(service) => pay_uri_step(uri_reading(p.uri@), service.net()),
            None => failing(unavailable()),
        },
        _ => StepView::Halt,
    }
}

/// Starts to carry out a request that does not concern the service's own
/// records.
pub fn begin_request(params: &RequestParams, ctx: &WalletContext) -> (out: WalletStep)
    ensures
        out@ == begin(*params, *ctx),
{
    match params {
        RequestParams::GetInfo => match ctx.service {
            Some(_) => WalletStep::Ask(NodeCall::Status),
            None => {
                let none: Vec<String> = Vec::new();
                assert(texts(none@) =~= Seq::empty());
                executed(tell_info(ctx, copy_text(ctx.own_pubkey.as_str()), "regtest", 0, none))
            },
        },
        RequestParams::GetBalance => match ctx.service {
            Some(_) => WalletStep::Ask(NodeCall::SyncWallets),
            None => executed(
                ResponseResult::GetBalance(
                    GetBalanceResponse {
                        balance: 0,
                        lightning_balance: Some(0),
                        onchain_balance: Some(0),
                    },
                ),
            ),
        },
        RequestParams::PayInvoice(p) => match ctx.service {
            Some(service) => ask(
                service.pay_invoice(p.invoice.as_str(), p.amount),
                "pay_invoice",
                ErrorCode::PaymentFailed,
            ),
            None => executed(
                ResponseResult::PayInvoice(
                    PayInvoiceResponse { preimage: copy_text("00"), fees_paid: Some(0) },
                ),
            ),
        },
        RequestParams::PayKeysend(p) => match ctx.service {
            Some(service) => ask(
                service.pay_keysend(p.pubkey.as_str(), p.amount),
                "pay_keysend",
                ErrorCode::PaymentFailed,
            ),
            None => executed(
                ResponseResult::PayKeysend(
                    PayInvoiceResponse { preimage: copy_text("00"), fees_paid: Some(0) },
                ),
            ),
        },
        RequestParams::MakeInvoice(p) => match ctx.service {
            Some(service) => ask(
                service.make_invoice(
                    p.amount,
                    as_slice(&p.description),
                    as_slice(&p.description_hash),
                    p.expiry,
                ),
                "make_invoice",
                ErrorCode::Other,
            ),
            None => executed(
                ResponseResult::MakeInvoice(
                    MakeInvoiceResponse {
                        invoice: copy_text("dummy_invoice"),
                        payment_hash: None,
                        description: None,
                        description_hash: None,
                        preimage: None,
                        amount: None,
                        created_at: None,
                        expires_at: None,
                    },
                ),
            ),
        },
        RequestParams::LookupInvoice(p) => match ctx.service {
            Some(service) => match &p.invoice {
                Some(invoice) => ask_for_payment(
                    service.lookup_payment_by_bolt11(invoice.as_str()),
                ),
                None => match &p.payment_hash {
                    Some(hash) => if hex_pairs_aligned(hash.as_str()) {
                        ask_for_payment(service.lookup_payment_by_hash(hash.as_str()))
                    } else {
                        WalletStep::Halt
                    },
                    None => other("payment_hash or invoice is required"),
                },
            },
            None => executed(
                ResponseResult::LookupInvoice(
                    LookupInvoiceResponse {
                        transaction_type: Some(TransactionType::Outgoing),
                        state: Some(TransactionState::Settled),
                        invoice: None,
                        description: None,
                        description_hash: None,
                        preimage: None,
                        payment_hash: copy_text("00"),
                        amount: 0,
                        fees_paid: 0,
                        created_at: Some(ctx.now),
                        expires_at: None,
                        settled_at: None,
                        payment_method: None,
                    },
                ),
            ),
        },
        RequestParams::ListTransactions(_) => match ctx.service {
            Some(_) => WalletStep::Ask(NodeCall::ListPayments),
            None => {
                let none: Vec<LookupInvoiceResponse> = Vec::new();
                assert(views(none@) =~= Seq::empty());
                executed(ResponseResult::ListTransactions(none))
            },
        },
        RequestParams::ListInvoices(_) => match ctx.service {
            Some(_) => WalletStep::Ask(NodeCall::ListPayments),
            None => {
                let none: Vec<ListedInvoice> = Vec::new();
                assert(views(none@) =~= Seq::empty());
                executed(ResponseResult::ListInvoices(none))
            },
        },
        RequestParams::MakeHoldInvoice(_) => executed(
            ResponseResult::MakeHoldInvoice(
                MakeHoldInvoiceResponse {
                    transaction_type: TransactionType::Incoming,
                    invoice: None,
                    description: None,
                    description_hash: None,
                    payment_hash: copy_text("00"),
                    amount: 0,
                    created_at: ctx.now,
                    expires_at: ctx.now,
                },
            ),
        ),
        RequestParams::CancelHoldInvoice(_) => executed(ResponseResult::CancelHoldInvoice),
        RequestParams::SettleHoldInvoice(_) => executed(ResponseResult::SettleHoldInvoice),
        RequestParams::MakeNewAddress => match ctx.service {
            Some(_) => WalletStep::Ask(NodeCall::NewAddress),
            None => other("ldk service unavailable"),
        },
        RequestParams::PayOnchain(p) => match ctx.service {
            Some(service) => ask(
                service.pay_onchain(p.address.as_str(), p.amount, p.feerate),
                "pay_onchain",
                ErrorCode::PaymentFailed,
            ),
            None => other("ldk service unavailable"),
        },
        RequestParams::MakeOffer(p) => match ctx.service {
            Some(service) => WalletStep::Ask(
                service.make_offer(p.amount, p.description.as_str(), p.expiry),
            ),
            None => other("ldk service unavailable"),
        },
        RequestParams::PayOffer(p) => match ctx.service {
            Some(service) => ask(
                service.pay_offer(p.offer.as_str(), p.amount, copy_opt_text(&p.payer_note)),
                "pay_offer",
                ErrorCode::PaymentFailed,
            ),
            None => other("ldk service unavailable"),
        },
        RequestParams::PayBip321(p) => match ctx.service {
            Some(service) => pay_uri(&read_uri(p.uri.as_str()), service),
            None => other("ldk service unavailable"),
        },
        _ => WalletStep::Halt,
    }
}

} // verus!
