//! Going on with a request when the node has answered.

use vstd::prelude::*;

#[allow(unused_imports)]
use crate::lightning::graph::node_text;
#[allow(unused_imports)]
use crate::lightning::hex::hex_text;
use crate::lightning::hex::hex_string;
#[allow(unused_imports)]
use crate::lightning::ldk_service::service_error_text;
use crate::lightning::ldk_service::{LdkInvoiceResult, LdkPaymentResult, LdkServiceError};
use crate::lightning::node::{NodeCall, NodeReply};
#[allow(unused_imports)]
use crate::lightning::node::answers;
#[allow(unused_imports)]
use crate::lightning::parse::{uri_reading, UriView};
use crate::lightning::parse::{read_uri, PaymentUri};
#[allow(unused_imports)]
use crate::lightning::payments::{filtered_payments, wait_outcome, PAYMENT_TIMEOUT_NANOS};
use crate::lightning::payments::{
    wait_for_outbound_payment, PaymentDetails, PaymentDirection, PaymentFilter, PaymentWait,
};
use crate::lightning::service::LdkService;
#[allow(unused_imports)]
use crate::lightning::service::{balance_of, network_text, CallView};
use crate::nip47::{
    ErrorCode, GetBalanceResponse, ListTransactionsRequest, LookupInvoiceRequest,
    MakeInvoiceRequest, MakeInvoiceResponse, MakeOfferResponse, PayBip321Response,
    PayInvoiceResponse, PayOfferResponse, RequestParams, ResponseResult, TransactionType,
};
#[allow(unused_imports)]
use crate::nip47::ResultView;
#[allow(unused_imports)]
use crate::state::address_store::AddressView;
use crate::state::address_store::register_address;
#[allow(unused_imports)]
use crate::state::offer_store::OfferView;
use crate::state::offer_store::insert_offer;
use crate::state::stores::Stores;
#[allow(unused_imports)]
use crate::text::{opt_text, texts};
use crate::text::{copy_opt_text, copy_text, join};
#[allow(unused_imports)]
use crate::views::result_view;
use crate::wallet::execute::{
    executed, ldk_failure, list_invoices, lookup_failure, other,
    payment_details_to_lookup_response, tell_info, tell_transactions, WalletContext, WalletStep,
};
#[allow(unused_imports)]
use crate::wallet::execute::{
    balance_result, begin, direction_of, done, failing, info_result, ldk_error, listed_invoices,
    lookup_error, lookup_response, lookup_responses, uri_way, wallet_notifications, StepView,
};
#[allow(unused_imports)]
use crate::wallet::validate::other_error;

verus! {

/// The payment URI is paid by its invoice.
pub open spec fn pays_invoice(uri: Result<UriView, Seq<char>>) -> bool {
    uri matches Ok(u) && uri_way(u) is Bolt11
}

/// What the payment that a request asks for is called.
pub open spec fn payment_operation(params: RequestParams) -> Seq<char> {
    match params {
        RequestParams::PayInvoice(_) => "pay_invoice"@,
        RequestParams::PayKeysend(_) => "pay_keysend"@,
        RequestParams::PayOffer(_) => "pay_offer"@,
        RequestParams::PayBip321(p) => if pays_invoice(uri_reading(p.uri@)) {
            "pay_bip321/bolt11"@
        } else {
            "pay_bip321/bolt12"@
        },
        _ => "payment"@,
    }
}

/// The result of a request whose payment went through.
pub open spec fn paid_result(params: RequestParams, p: LdkPaymentResult<Seq<char>>) -> ResultView {
    match params {
        RequestParams::PayInvoice(_) => ResultView::PayInvoice(
            PayInvoiceResponse { preimage: p.preimage, fees_paid: p.fees_paid_msat },
        ),
        RequestParams::PayKeysend(_) => ResultView::PayKeysend(
            PayInvoiceResponse { preimage: p.preimage, fees_paid: p.fees_paid_msat },
        ),
        RequestParams::PayBip321(r) => ResultView::PayBip321(
            PayBip321Response {
                preimage: Some(p.preimage),
                txid: None,
                fees_paid: p.fees_paid_msat,
                payment_method: if pays_invoice(uri_reading(r.uri@)) {
                    "bolt11"@
                } else {
                    "bolt12"@
                },
            },
        ),
        _ => ResultView::PayOffer(
            PayOfferResponse { preimage: Some(p.preimage), fees_paid: p.fees_paid_msat },
        ),
    }
}

/// The request asks for a Lightning payment.
pub open spec fn is_payment(params: RequestParams) -> bool {
    params is PayInvoice || params is PayKeysend || params is PayOffer || params is PayBip321
}

/// The pause between two looks at a payment, in milliseconds.
pub const PAYMENT_PAUSE_MS: u64 = 100;

/// The step after a payment was sent, or could not be.
pub open spec fn sent_step(params: RequestParams, sent: Result<[u8; 32], String>) -> StepView {
    match sent {
        Ok(id) => StepView::Ask(NodeCall::WatchPayment { id, pause_ms: 0 }),
        Err(m) => failing(
            ldk_error(
                payment_operation(params),
                ErrorCode::PaymentFailed,
                LdkServiceError::PaymentFailed(m@),
            ),
        ),
    }
}

/// The step after a look at a payment.
pub open spec fn watched_step(
    params: RequestParams,
    id: [u8; 32],
    payments: Seq<PaymentDetails>,
    elapsed_nanos: u128,
) -> StepView {
    match wait_outcome(payments, id@, elapsed_nanos) {
        None => StepView::Ask(NodeCall::WatchPayment { id, pause_ms: PAYMENT_PAUSE_MS }),
        Some(Err(e)) => failing(
            ldk_error(payment_operation(params), ErrorCode::PaymentFailed, e),
        ),
        Some(Ok(p)) => done(paid_result(params, p)),
    }
}

/// The result that tells a new invoice.
pub open spec fn invoice_result(
    p: MakeInvoiceRequest,
    now: u64,
    made: LdkInvoiceResult<Seq<char>>,
) -> ResultView {
    ResultView::MakeInvoice(
        MakeInvoiceResponse {
            invoice: made.invoice,
            payment_hash: made.payment_hash,
            description: opt_text(p.description),
            description_hash: opt_text(p.description_hash),
            preimage: None,
            amount: made.amount_msat,
            created_at: Some(now),
            expires_at: made.expires_at,
        },
    )
}

/// The hash that a search for a payment was about.
pub open spec fn searched_hash(p: LookupInvoiceRequest, id: [u8; 32]) -> Seq<char> {
    match (p.invoice, p.payment_hash) {
        (None, Some(hash)) => hash@,
        _ => hex_text(id@),
    }
}

/// The filter that a list of transactions asks for.
pub open spec fn transaction_filter(p: ListTransactionsRequest) -> PaymentFilter {
    PaymentFilter {
        from: p.from,
        until: p.until,
        unpaid: p.unpaid,
        direction: direction_of(p.transaction_type),
        payment_method: p.payment_method,
    }
}

/// The next step of a request when the node has answered a call. `Halt` if the
/// answer does not belong to the call, or the call not to the request.
pub open spec fn proceed(
    params: RequestParams,
    ctx: WalletContext,
    call: CallView,
    reply: NodeReply,
) -> StepView {
    match (params, call, reply) {
        (RequestParams::GetInfo, NodeCall::Status, NodeReply::Height(height)) => match ctx.service {
            Some(service) => done(
                info_result(
                    ctx,
                    node_text(service.id()),
                    network_text(service.net()),
                    height,
                    wallet_notifications(),
                ),
            ),
            None => StepView::Halt,
        },
        (RequestParams::GetBalance, NodeCall::SyncWallets, NodeReply::Done(r)) => match r {
            Ok(_) => StepView::Ask(NodeCall::ListBalances),
            Err(m) => failing(
                other_error(
                    "ldk sync failed: "@ + service_error_text(LdkServiceError::SyncFailed(m@)),
                ),
            ),
        },
        (
            RequestParams::GetBalance,
            NodeCall::ListBalances,
            NodeReply::Balances { spendable_onchain_sats, total_lightning_sats },
        ) => match balance_of(spendable_onchain_sats, total_lightning_sats) {
            Ok(b) => done(balance_result(b)),
            Err(e) => failing(other_error("ldk balance failed: "@ + service_error_text(e))),
        },
        (
            RequestParams::MakeInvoice(p),
            NodeCall::ReceiveBolt11 { .. },
            NodeReply::Invoice(r),
        ) => match r {
            Ok(made) => done(invoice_result(p, ctx.now, made@)),
            Err(m) => failing(
                ldk_error(
                    "make_invoice"@,
                    ErrorCode::Other,
                    LdkServiceError::InvalidInvoiceRequest(m@),
                ),
            ),
        },
        (
            RequestParams::LookupInvoice(p),
            NodeCall::FindPayment { id },
            NodeReply::Payment(found),
        ) => match found {
            Some(payment) => done(ResultView::LookupInvoice(lookup_response(payment))),
            None => failing(
                lookup_error(LdkServiceError::PaymentNotFound(searched_hash(p, id))),
            ),
        },
        (
            RequestParams::ListTransactions(p),
            NodeCall::ListPayments,
            NodeReply::Payments(payments),
        ) => done(
            ResultView::ListTransactions(
                lookup_responses(
                    filtered_payments(payments@, transaction_filter(p), p.limit, p.offset),
                ),
            ),
        ),
        (RequestParams::ListInvoices(p), NodeCall::ListPayments, NodeReply::Payments(payments)) =>
            done(ResultView::ListInvoices(listed_invoices(payments@, p))),
        (RequestParams::MakeNewAddress, NodeCall::NewAddress, NodeReply::Text(r)) => match r {
            Ok(address) => done(ResultView::MakeNewAddress { address: address@ }),
            Err(m) => failing(
                ldk_error(
                    "make_new_address"@,
                    ErrorCode::Other,
                    LdkServiceError::AddressGenerationFailed(m@),
                ),
            ),
        },
        (RequestParams::PayOnchain(_), NodeCall::SendOnchain { .. }, NodeReply::Text(r)) =>
            match r {
            Ok(txid) => done(ResultView::PayOnchain { txid: txid@ }),
            Err(m) => failing(
                ldk_error(
                    "pay_onchain"@,
                    ErrorCode::PaymentFailed,
                    LdkServiceError::PaymentFailed(m@),
                ),
            ),
        },
        (RequestParams::PayBip321(_), NodeCall::SendOnchain { .. }, NodeReply::Text(r)) => match r {
            Ok(txid) => done(
                ResultView::PayBip321(
                    PayBip321Response {
                        preimage: None,
                        txid: Some(txid@),
                        fees_paid: None,
                        payment_method: "onchain"@,
                    },
                ),
            ),
            Err(m) => failing(
                ldk_error(
                    "pay_bip321/onchain"@,
                    ErrorCode::PaymentFailed,
                    LdkServiceError::PaymentFailed(m@),
                ),
            ),
        },
        (RequestParams::MakeOffer(p), NodeCall::ReceiveOffer { .. }, NodeReply::Offer(r)) =>
            match r {
            Ok(made) => done(
                ResultView::MakeOffer(
                    MakeOfferResponse {
                        offer: made.offer@,
                        description: Some(p.description@),
                        amount: Some(p.amount),
                    },
                ),
            ),
            Err(m) => failing(
                ldk_error("make_offer"@, ErrorCode::Other, LdkServiceError::OfferFailed(m@)),
            ),
        },
        (_, NodeCall::SendBolt11 { .. }, NodeReply::Sent(r)) => if is_payment(params) {
            sent_step(params, r)
        } else {
            StepView::Halt
        },
        (_, NodeCall::SendKeysend { .. }, NodeReply::Sent(r)) => if is_payment(params) {
            sent_step(params, r)
        } else {
            StepView::Halt
        },
        (_, NodeCall::SendOffer { .. }, NodeReply::Sent(r)) => if is_payment(params) {
            sent_step(params, r)
        } else {
            StepView::Halt
        },
        (
            _,
            NodeCall::WatchPayment { id, .. },
            NodeReply::Watched { payments, elapsed_nanos },
        ) => if is_payment(params) {
            watched_step(params, id, payments@, elapsed_nanos)
        } else {
            StepView::Halt
        },
        _ => StepView::Halt,
    }
}

/// The address that a request brought, to be remembered.
pub open spec fn new_address(
    params: RequestParams,
    call: CallView,
    reply: NodeReply,
) -> Option<Seq<char>> {
    match (params, call, reply) {
        (RequestParams::MakeNewAddress, NodeCall::NewAddress, NodeReply::Text(Ok(address))) => Some(
            address@,
        ),
        _ => None,
    }
}

/// The offer that a request brought, to be remembered.
pub open spec fn new_offer(params: RequestParams, call: CallView, reply: NodeReply) -> Option<
    OfferView,
> {
    match (params, call, reply) {
        (RequestParams::MakeOffer(p), NodeCall::ReceiveOffer { .. }, NodeReply::Offer(Ok(made))) =>
            Some(
            OfferView {
                offer: made.offer@,
                description: p.description@,
                amount_msat: p.amount,
                active: true,
                num_payments_received: 0,
                total_received_msat: 0,
                offer_id: made.id@,
            },
        ),
        _ => None,
    }
}

/// A store of addresses after an address was handed out.
pub open spec fn with_address(m: Map<Seq<char>, AddressView>, address: Option<Seq<char>>) -> Map<
    Seq<char>,
    AddressView,
> {
    match address {
        Some(a) => if m.contains_key(a) {
            m
        } else {
            m.insert(a, AddressView { address: a, transactions: Seq::empty() })
        },
        None => m,
    }
}

/// A store of offers after an offer was made.
pub open spec fn with_offer(m: Map<Seq<char>, OfferView>, offer: Option<OfferView>) -> Map<
    Seq<char>,
    OfferView,
> {
    match offer {
        Some(o) => m.insert(o.offer, o),
        None => m,
    }
}

fn pays_by_invoice(uri: &Result<PaymentUri, String>) -> (out: bool)
    ensures
        out == pays_invoice(result_view(*uri)),
{
    match uri {
        Ok(u) => {
            assert(u@.lightning.len() == u.lightning@.len());
            u.lightning.len() > 0
        },
        Err(_) => false,
    }
}

fn operation(params: &RequestParams) -> (out: &'static str)
    ensures
        out@ == payment_operation(*params),
{
    match params {
        RequestParams::PayInvoice(_) => "pay_invoice",
        RequestParams::PayKeysend(_) => "pay_keysend",
        RequestParams::PayOffer(_) => "pay_offer",
        RequestParams::PayBip321(p) => if pays_by_invoice(&read_uri(p.uri.as_str())) {
            "pay_bip321/bolt11"
        } else {
            "pay_bip321/bolt12"
        },
        _ => "payment",
    }
}

fn paid(params: &RequestParams, p: LdkPaymentResult) -> (out: ResponseResult)
    ensures
        out@ == paid_result(*params, p@),
{
    match params {
        RequestParams::PayInvoice(_) => ResponseResult::PayInvoice(
            PayInvoiceResponse { preimage: p.preimage, fees_paid: p.fees_paid_msat },
        ),
        RequestParams::PayKeysend(_) => ResponseResult::PayKeysend(
            PayInvoiceResponse { preimage: p.preimage, fees_paid: p.fees_paid_msat },
        ),
        RequestParams::PayBip321(r) => {
            let way: &str = if pays_by_invoice(&read_uri(r.uri.as_str())) {
                "bolt11"
            } else {
                "bolt12"
            };
            ResponseResult::PayBip321(
                PayBip321Response {
                    preimage: Some(p.preimage),
                    txid: None,
                    fees_paid: p.fees_paid_msat,
                    payment_method: copy_text(way),
                },
            )
        },
        _ => ResponseResult::PayOffer(
            PayOfferResponse { preimage: Some(p.preimage), fees_paid: p.fees_paid_msat },
        ),
    }
}

fn asks_payment(params: &RequestParams) -> (out: bool)
    ensures
        out == is_payment(*params),
{
    match params {
        RequestParams::PayInvoice(_) => true,
        RequestParams::PayKeysend(_) => true,
        RequestParams::PayOffer(_) => true,
        RequestParams::PayBip321(_) => true,
        _ => false,
    }
}

fn after_sending(params: &RequestParams, sent: Result<[u8; 32], String>) -> (out: WalletStep)
    ensures
        out@ == if is_payment(*params) {
            sent_step(*params, sent)
        } else {
            StepView::Halt
        },
{
    if !asks_payment(params) {
        return WalletStep::Halt;
    }
    match sent {
        Ok(id) => WalletStep::Ask(NodeCall::WatchPayment { id, pause_ms: 0 }),
        Err(m) => ldk_failure(
            operation(params),
            ErrorCode::PaymentFailed,
            LdkServiceError::PaymentFailed(m),
        ),
    }
}

fn after_watching(
    params: &RequestParams,
    id: [u8; 32],
    payments: &Vec<PaymentDetails>,
    elapsed_nanos: u128,
) -> (out: WalletStep)
    ensures
        out@ == if is_payment(*params) {
            watched_step(*params, id, payments@, elapsed_nanos)
        } else {
            StepView::Halt
        },
{
    if !asks_payment(params) {
        return WalletStep::Halt;
    }
    match wait_for_outbound_payment(payments, &id, elapsed_nanos) {
        PaymentWait::Wait => WalletStep::Ask(
            NodeCall::WatchPayment { id, pause_ms: PAYMENT_PAUSE_MS },
        ),
        PaymentWait::Over(Err(e)) => ldk_failure(operation(params), ErrorCode::PaymentFailed, e),
        PaymentWait::Over(Ok(p)) => executed(paid(params, p)),
    }
}

fn notification_list() -> (out: Vec<String>)
    ensures
        texts(out@) == wallet_notifications(),
{
    let out: Vec<String> = vec![
        copy_text("payment_received"),
        copy_text("payment_sent"),
        copy_text("hold_invoice_accepted"),
    ];
    assert(texts(out@) =~= wallet_notifications());
    out
}

fn direction(t: Option<TransactionType>) -> (out: Option<PaymentDirection>)
    ensures
        out == direction_of(t),
{
    match t {
        Some(TransactionType::Incoming) => Some(PaymentDirection::Inbound),
        Some(TransactionType::Outgoing) => Some(PaymentDirection::Outbound),
        None => None,
    }
}

fn after_balances(onchain_sats: u64, lightning_sats: u64, service: &LdkService) -> (out: WalletStep)
    ensures
        out@ == match balance_of(onchain_sats, lightning_sats) {
            Ok(b) => done(balance_result(b)),
            Err(e) => failing(other_error("ldk balance failed: "@ + service_error_text(e))),
        },
{
    match service.get_balance(onchain_sats, lightning_sats) {
        Ok(b) => executed(
            ResponseResult::GetBalance(
                GetBalanceResponse {
                    balance: b.total_msat,
                    lightning_balance: Some(b.lightning_msat),
                    onchain_balance: Some(b.onchain_msat),
                },
            ),
        ),
        Err(e) => other(join("ldk balance failed: ", e.to_string().as_str()).as_str()),
    }
}

/// Goes on with a request when the node has answered a call.
pub fn resume_request(
    params: &RequestParams,
    ctx: &WalletContext,
    call: &NodeCall,
    reply: NodeReply,
    stores: &mut Stores,
) -> (out: WalletStep)
    requires
        old(stores).wf(),
        ctx.service is Some,
    ensures
        out@ == proceed(*params, *ctx, call@, reply),
        final(stores).wf(),
        final(stores).addresses@ == with_address(
            old(stores).addresses@,
            new_address(*params, call@, reply),
        ),
        final(stores).offers@ == with_offer(
            old(stores).offers@,
            new_offer(*params, call@, reply),
        ),
        final(stores).subscriptions == old(stores).subscriptions,
        final(stores).forwards == old(stores).forwards,
{
    match (params, call, reply) {
        (RequestParams::GetInfo, NodeCall::Status, NodeReply::Height(height)) => match ctx.service {
            Some(service) => {
                let status: crate::lightning::ldk_service::LdkNodeStatus = service.status(height);
                executed(
                    tell_info(
                        ctx,
                        service.node_id(),
                        service.network(),
                        status.latest_best_block_height,
                        notification_list(),
                    ),
                )
            },
            None => WalletStep::Halt,
        },
        (RequestParams::GetBalance, NodeCall::SyncWallets, NodeReply::Done(r)) => match ctx.service {
            Some(service) => match service.sync_wallets(r) {
                Ok(_) => WalletStep::Ask(NodeCall::ListBalances),
                Err(e) => other(join("ldk sync failed: ", e.to_string().as_str()).as_str()),
            },
            None => WalletStep::Halt,
        },
        (
            RequestParams::GetBalance,
            NodeCall::ListBalances,
            NodeReply::Balances { spendable_onchain_sats, total_lightning_sats },
        ) => match ctx.service {
            Some(service) => after_balances(spendable_onchain_sats, total_lightning_sats, service),
            None => WalletStep::Halt,
        },
        (
            RequestParams::MakeInvoice(p),
            NodeCall::ReceiveBolt11 { .. },
            NodeReply::Invoice(r),
        ) => match r {
            Ok(made) => executed(
                ResponseResult::MakeInvoice(
                    MakeInvoiceResponse {
                        invoice: made.invoice,
                        payment_hash: made.payment_hash,
                        description: copy_opt_text(&p.description),
                        description_hash: copy_opt_text(&p.description_hash),
                        preimage: None,
                        amount: made.amount_msat,
                        created_at: Some(ctx.now),
                        expires_at: made.expires_at,
                    },
                ),
            ),
            Err(m) => ldk_failure(
                "make_invoice",
                ErrorCode::Other,
                LdkServiceError::InvalidInvoiceRequest(m),
            ),
        },
        (
            RequestParams::LookupInvoice(p),
            NodeCall::FindPayment { id },
            NodeReply::Payment(found),
        ) => match found {
            Some(payment) => executed(
                ResponseResult::LookupInvoice(payment_details_to_lookup_response(&payment)),
            ),
            None => {
                let hash: String = match (&p.invoice, &p.payment_hash) {
                    (None, Some(hash)) => copy_text(hash.as_str()),
                    _ => hex_string(id.as_slice()),
                };
                lookup_failure(LdkServiceError::PaymentNotFound(hash))
            },
        },
        (
            RequestParams::ListTransactions(p),
            NodeCall::ListPayments,
            NodeReply::Payments(payments),
        ) => {
            let filter: PaymentFilter = PaymentFilter {
                from: p.from,
                until: p.until,
                unpaid: p.unpaid,
                direction: direction(p.transaction_type),
                payment_method: p.payment_method,
            };
            match ctx.service {
                Some(service) => {
                    let listed: Vec<PaymentDetails> = service.list_payments_filtered(
                        &payments,
                        &filter,
                        p.limit,
                        p.offset,
                    );
                    executed(ResponseResult::ListTransactions(tell_transactions(&listed)))
                },
                None => WalletStep::Halt,
            }
        },
        (RequestParams::ListInvoices(p), NodeCall::ListPayments, NodeReply::Payments(payments)) => {
            executed(ResponseResult::ListInvoices(list_invoices(&payments, p)))
        },
        (RequestParams::MakeNewAddress, NodeCall::NewAddress, NodeReply::Text(r)) => match ctx.service {
            Some(service) => match service.new_onchain_address(r) {
                Ok(address) => {
                    register_address(&mut stores.addresses, copy_text(address.as_str()));
                    executed(ResponseResult::MakeNewAddress { address })
                },
                Err(e) => ldk_failure("make_new_address", ErrorCode::Other, e),
            },
            None => WalletStep::Halt,
        },
        (RequestParams::PayOnchain(_), NodeCall::SendOnchain { .. }, NodeReply::Text(r)) =>
            match r {
            Ok(txid) => executed(ResponseResult::PayOnchain { txid }),
            Err(m) => ldk_failure(
                "pay_onchain",
                ErrorCode::PaymentFailed,
                LdkServiceError::PaymentFailed(m),
            ),
        },
        (RequestParams::PayBip321(_), NodeCall::SendOnchain { .. }, NodeReply::Text(r)) => match r {
            Ok(txid) => executed(
                ResponseResult::PayBip321(
                    PayBip321Response {
                        preimage: None,
                        txid: Some(txid),
                        fees_paid: None,
                        payment_method: copy_text("onchain"),
                    },
                ),
            ),
            Err(m) => ldk_failure(
                "pay_bip321/onchain",
                ErrorCode::PaymentFailed,
                LdkServiceError::PaymentFailed(m),
            ),
        },
        (RequestParams::MakeOffer(p), NodeCall::ReceiveOffer { .. }, NodeReply::Offer(r)) =>
            match r {
            Ok(made) => {
                insert_offer(
                    &mut stores.offers,
                    copy_text(made.offer.as_str()),
                    copy_text(p.description.as_str()),
                    p.amount,
                    made.id,
                );
                executed(
                    ResponseResult::MakeOffer(
                        MakeOfferResponse {
                            offer: made.offer,
                            description: Some(copy_text(p.description.as_str())),
                            amount: Some(p.amount),
                        },
                    ),
                )
            },
            Err(m) => ldk_failure(
                "make_offer",
                ErrorCode::Other,
                LdkServiceError::OfferFailed(m),
            ),
        },
        (_, NodeCall::SendBolt11 { .. }, NodeReply::Sent(r)) => after_sending(params, r),
        (_, NodeCall::SendKeysend { .. }, NodeReply::Sent(r)) => after_sending(params, r),
        (_, NodeCall::SendOffer { .. }, NodeReply::Sent(r)) => after_sending(params, r),
        (
            _,
            NodeCall::WatchPayment { id, .. },
            NodeReply::Watched { payments, elapsed_nanos },
        ) => after_watching(params, *id, &payments, elapsed_nanos),
        _ => WalletStep::Halt,
    }
}

/// The calls of the node that a request can come to.
pub open spec fn wallet_calls(params: RequestParams, call: CallView) -> bool {
    match params {
        RequestParams::GetInfo => call is Status,
        RequestParams::GetBalance => call is SyncWallets || call is ListBalances,
        RequestParams::PayInvoice(_) => call is SendBolt11 || call is WatchPayment,
        RequestParams::PayKeysend(_) => call is SendKeysend || call is WatchPayment,
        RequestParams::PayOffer(_) => call is SendOffer || call is WatchPayment,
        RequestParams::PayBip321(_) => call is SendBolt11 || call is SendOffer || call is SendOnchain
            || call is WatchPayment,
        RequestParams::PayOnchain(_) => call is SendOnchain,
        RequestParams::MakeInvoice(_) => call is ReceiveBolt11,
        RequestParams::LookupInvoice(_) => call is FindPayment,
        RequestParams::ListTransactions(_) => call is ListPayments,
        RequestParams::ListInvoices(_) => call is ListPayments,
        RequestParams::MakeNewAddress => call is NewAddress,
        RequestParams::MakeOffer(_) => call is ReceiveOffer,
        _ => false,
    }
}

/// A request begins with one of its calls, if with any.
pub proof fn wallet_requests_begin_with_their_calls(params: RequestParams, ctx: WalletContext)
    ensures
        begin(params, ctx) matches StepView::Ask(call) ==> wallet_calls(params, call),
{
}

/// A request that asked the node for something does not get stuck: whatever the
/// node replies, it is carried out, fails, or asks for one of its calls again.
pub proof fn wallet_requests_go_on(
    params: RequestParams,
    ctx: WalletContext,
    call: CallView,
    reply: NodeReply,
)
    requires
        ctx.service is Some,
        wallet_calls(params, call),
        answers(call, reply),
    ensures
        match proceed(params, ctx, call, reply) {
            StepView::Halt => false,
            StepView::Ask(next) => wallet_calls(params, next),
            _ => true,
        },
{
}

/// A payment is not watched for ever: once the time is up, the request ends,
/// whatever the node tells of the payment.
pub proof fn payments_are_not_watched_for_ever(
    params: RequestParams,
    id: [u8; 32],
    payments: Seq<PaymentDetails>,
    elapsed_nanos: u128,
)
    requires
        elapsed_nanos > PAYMENT_TIMEOUT_NANOS,
    ensures
        watched_step(params, id, payments, elapsed_nanos) is Executed,
{
}

} // verus!
