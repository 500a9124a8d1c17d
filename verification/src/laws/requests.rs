//! How requests to the wallet are checked and begun, and how they end.

use vstd::prelude::*;

use crate::laws::results::fails_with;
use crate::lightning::node::NodeCall;
#[allow(unused_imports)]
use crate::lightning::parse::{
    invoice_parse, network_check, offer_parse, onchain_parse, pubkey_parse, uri_reading,
};
use crate::lightning::service::LdkService;
use crate::lightning::ldk_service::LdkServiceError;
use crate::nip47::{
    ErrorCode, MakeInvoiceRequest, Method, NIP47Error, Request, RequestParams, ResponseResult,
    TransactionType,
};
use crate::state::stores::Stores;
#[allow(unused_imports)]
use crate::state::subscription_store::subscribed;
#[allow(unused_imports)]
use crate::text::{blank, opt_str, opt_text, texts};
#[allow(unused_imports)]
use crate::views::views;
#[allow(unused_imports)]
use crate::wallet::execute::{begin_request, map_ldk_service_error, wallet_notifications};
use crate::wallet::execute::{WalletContext, WalletStep};
#[allow(unused_imports)]
use crate::wallet::request::{break_off_request, finish_request, first_unknown, starts};
use crate::wallet::request::{RequestEnd, RequestStart};
#[allow(unused_imports)]
use crate::wallet::validate::validate;
#[allow(unused_imports)]
use crate::wallet::records::answers_from_records;

verus! {

/// Paying an invoice asks the node to pay it, with the amount that was named; an
/// invoice that cannot be read fails as a payment does.
pub proof fn pay_invoice_asks_to_pay(
    p: crate::nip47::PayInvoiceRequest,
    ctx: WalletContext,
    step: WalletStep,
)
    requires
        call_ensures(begin_request, (&RequestParams::PayInvoice(p), &ctx), step),
        ctx.service is Some,
    ensures
        invoice_parse(p.invoice@) is Ok ==> (step matches WalletStep::Ask(
            NodeCall::SendBolt11 { invoice, amount_msat },
        ) && invoice@ == p.invoice@ && amount_msat == p.amount),
        invoice_parse(p.invoice@) is Err ==> fails_with(step, ErrorCode::PaymentFailed),
{
}

/// Paying a node asks for a payment to it over the amount that was named.
pub proof fn pay_keysend_asks_to_pay(
    p: crate::nip47::PayKeysendRequest,
    ctx: WalletContext,
    step: WalletStep,
)
    requires
        call_ensures(begin_request, (&RequestParams::PayKeysend(p), &ctx), step),
        ctx.service is Some,
        p.amount > 0,
    ensures
        pubkey_parse(p.pubkey@) matches Ok(id) ==> (step matches WalletStep::Ask(
            NodeCall::SendKeysend { amount_msat, node_id },
        ) && amount_msat == p.amount && node_id == id),
        pubkey_parse(p.pubkey@) is Err ==> fails_with(step, ErrorCode::PaymentFailed),
{
}

/// Paying an offer asks the node to pay it, with the note that was given.
pub proof fn pay_offer_asks_to_pay(
    p: crate::nip47::PayOfferRequest,
    ctx: WalletContext,
    step: WalletStep,
)
    requires
        call_ensures(begin_request, (&RequestParams::PayOffer(p), &ctx), step),
        ctx.service is Some,
    ensures
        offer_parse(p.offer@) is Ok ==> (step matches WalletStep::Ask(
            NodeCall::SendOffer { offer, payer_note },
        ) && offer@ == p.offer@ && opt_text(payer_note) == opt_text(p.payer_note)),
        offer_parse(p.offer@) is Err ==> fails_with(step, ErrorCode::PaymentFailed),
{
}

/// Paying an address asks the node to send the satoshis that were named to it, if
/// it is one of the node's network.
pub proof fn pay_onchain_asks_to_pay(
    p: crate::nip47::PayOnchainRequest,
    ctx: WalletContext,
    step: WalletStep,
)
    requires
        call_ensures(begin_request, (&RequestParams::PayOnchain(p), &ctx), step),
        ctx.service is Some,
    ensures
        onchain_parse(p.address@) is Err ==> fails_with(step, ErrorCode::PaymentFailed),
        onchain_parse(p.address@) matches Ok(read) ==> {
            &&& network_check(read, ctx.service->0.net()) matches Ok(checked) ==> (
            step matches WalletStep::Ask(NodeCall::SendOnchain { address, amount_sats }) && address@
                == checked && amount_sats == p.amount)
            &&& network_check(read, ctx.service->0.net()) is Err ==> fails_with(
                step,
                ErrorCode::PaymentFailed,
            )
        },
{
}

/// A payment URI is paid by its first invoice, else by its first offer, else to
/// its address; in millisatoshis over Lightning, in satoshis on chain. One that
/// names none of them, or an address without an amount, is not paid.
pub proof fn pay_bip321_asks_to_pay(
    p: crate::nip47::PayBip321Request,
    ctx: WalletContext,
    step: WalletStep,
)
    requires
        call_ensures(begin_request, (&RequestParams::PayBip321(p), &ctx), step),
        ctx.service is Some,
    ensures
        uri_reading(p.uri@) is Err ==> fails_with(step, ErrorCode::Other),
        uri_reading(p.uri@) matches Ok(uri) ==> ((uri.amount_sat matches Some(sat) ==> sat * 1000
            <= u64::MAX) ==> {
            let sat = uri.amount_sat;
            &&& uri.lightning.len() > 0 && invoice_parse(uri.lightning[0]) is Ok ==> (
            step matches WalletStep::Ask(NodeCall::SendBolt11 { invoice, amount_msat }) && invoice@
                == uri.lightning[0] && (sat matches Some(n) ==> amount_msat == Some(
                (1000 * n) as u64,
            )) && (sat is None ==> amount_msat is None))
            &&& uri.lightning.len() == 0 && uri.offers.len() > 0 && offer_parse(uri.offers[0]) is Ok
                ==> (step matches WalletStep::Ask(NodeCall::SendOffer { offer, payer_note }) && offer@
                == uri.offers[0] && payer_note is None)
            &&& uri.lightning.len() == 0 && uri.offers.len() == 0 ==> {
                &&& uri.address is None ==> fails_with(step, ErrorCode::Other)
                &&& uri.address is Some && sat is None ==> fails_with(step, ErrorCode::Other)
                &&& uri.address matches Some(address) ==> (sat matches Some(n) ==> (onchain_parse(
                    address,
                ) matches Ok(read) ==> (network_check(read, ctx.service->0.net()) matches Ok(
                    checked,
                ) ==> (step matches WalletStep::Ask(
                    NodeCall::SendOnchain { address: to, amount_sats },
                ) && to@ == checked && amount_sats == n))))
            }
        }),
{
}

/// A request for an invoice asks the node for what the service asks it for.
pub proof fn make_invoice_asks_for_an_invoice(
    p: MakeInvoiceRequest,
    ctx: WalletContext,
    step: WalletStep,
    description: Option<&str>,
    description_hash: Option<&str>,
    asked: Result<NodeCall, LdkServiceError>,
)
    requires
        call_ensures(begin_request, (&RequestParams::MakeInvoice(p), &ctx), step),
        ctx.service is Some,
        opt_str(description) == opt_text(p.description),
        opt_str(description_hash) == opt_text(p.description_hash),
        call_ensures(
            LdkService::make_invoice,
            (ctx.service->0, p.amount, description, description_hash, p.expiry),
            asked,
        ),
    ensures
        asked matches Ok(call) ==> (step matches WalletStep::Ask(c) && c@ == call@),
        asked is Err ==> fails_with(step, ErrorCode::Other),
{
}

/// The other requests that the node has a part in ask it first.
pub proof fn requests_ask_the_node_first(
    params: RequestParams,
    ctx: WalletContext,
    step: WalletStep,
)
    requires
        call_ensures(begin_request, (&params, &ctx), step),
        ctx.service is Some,
    ensures
        params is GetInfo ==> step matches WalletStep::Ask(NodeCall::Status),
        params is GetBalance ==> step matches WalletStep::Ask(NodeCall::SyncWallets),
        params is ListTransactions ==> step matches WalletStep::Ask(NodeCall::ListPayments),
        params is ListInvoices ==> step matches WalletStep::Ask(NodeCall::ListPayments),
        params is MakeNewAddress ==> step matches WalletStep::Ask(NodeCall::NewAddress),
        params matches RequestParams::MakeOffer(p) ==> (step matches WalletStep::Ask(
            NodeCall::ReceiveOffer { amount_msat, description, expiry_secs },
        ) && amount_msat == p.amount && description@ == p.description@ && expiry_secs == p.expiry),
{
}

/// A payment is looked up by its invoice or, without one, by its hash.
pub proof fn payments_are_looked_up_as_named(
    p: crate::nip47::LookupInvoiceRequest,
    ctx: WalletContext,
    step: WalletStep,
    hash: [u8; 32],
)
    requires
        call_ensures(begin_request, (&RequestParams::LookupInvoice(p), &ctx), step),
        ctx.service is Some,
    ensures
        p.invoice matches Some(invoice) ==> {
            &&& invoice_parse(invoice@) matches Ok(h) ==> (step matches WalletStep::Ask(
                NodeCall::FindPayment { id },
            ) && id == h)
            &&& invoice_parse(invoice@) is Err ==> fails_with(step, ErrorCode::Other)
        },
        p.invoice is None ==> (p.payment_hash matches Some(text) ==> (text@
            == crate::lightning::hex::hex_text(hash@) ==> (step matches WalletStep::Ask(
            NodeCall::FindPayment { id },
        ) && id@ == hash@))),
        p.invoice is None && p.payment_hash is None ==> fails_with(step, ErrorCode::Other),
{
    if p.invoice is None && p.payment_hash is Some && p.payment_hash->0@
        == crate::lightning::hex::hex_text(hash@) {
        crate::lightning::hex::hex_round_trip(hash@);
        let b = crate::lightning::hex::pair_bytes(vstd::utf8::encode_utf8(p.payment_hash->0@));
        assert(hash@ == b);
        assert(exists|a: [u8; 32]| a@ == b);
    }
}

/// Without a node, a wallet answers with placeholders where it has them, and is
/// unavailable for what only a node can do.
pub proof fn wallets_without_a_node_make_do(
    params: RequestParams,
    ctx: WalletContext,
    step: WalletStep,
)
    requires
        call_ensures(begin_request, (&params, &ctx), step),
        ctx.service is None,
    ensures
        params is GetBalance ==> (step matches WalletStep::Executed(Ok(ResponseResult::GetBalance(r)))
            && r.balance == 0 && r.lightning_balance == Some(0u64) && r.onchain_balance == Some(
            0u64,
        )),
        params is GetInfo ==> (step matches WalletStep::Executed(Ok(ResponseResult::GetInfo(r)))
            && opt_text(r.pubkey) == Some(ctx.own_pubkey@) && opt_text(r.network) == Some(
            "regtest"@,
        ) && r.block_height == Some(0u32) && views(r.methods@) == views(ctx.methods@)
            && r.notifications@.len() == 0),
        params is PayInvoice ==> (step matches WalletStep::Executed(Ok(ResponseResult::PayInvoice(r)))
            && r.preimage@ == "00"@ && r.fees_paid == Some(0u64)),
        params is PayKeysend ==> (step matches WalletStep::Executed(Ok(ResponseResult::PayKeysend(r)))
            && r.preimage@ == "00"@ && r.fees_paid == Some(0u64)),
        params is ListTransactions ==> (step matches WalletStep::Executed(
            Ok(ResponseResult::ListTransactions(list)),
        ) && list@.len() == 0),
        params is ListInvoices ==> (step matches WalletStep::Executed(
            Ok(ResponseResult::ListInvoices(list)),
        ) && list@.len() == 0),
        params is MakeInvoice ==> (step matches WalletStep::Executed(
            Ok(ResponseResult::MakeInvoice(r)),
        ) && r.invoice@ == "dummy_invoice"@ && r.amount is None),
        params is LookupInvoice ==> (step matches WalletStep::Executed(
            Ok(ResponseResult::LookupInvoice(r)),
        ) && r.payment_hash@ == "00"@ && r.amount == 0 && r.created_at == Some(ctx.now)),
        params is PayOnchain || params is PayOffer || params is PayBip321 || params is MakeOffer
            || params is MakeNewAddress ==> (step matches WalletStep::Executed(Err(e)) && e.code
            == ErrorCode::Other && e.message@ == "ldk service unavailable"@),
{
    match step {
        WalletStep::Executed(Ok(ResponseResult::GetInfo(r))) => {
            assert(texts(r.notifications@).len() == r.notifications@.len());
        },
        WalletStep::Executed(Ok(ResponseResult::ListTransactions(list))) => {
            assert(views(list@).len() == list@.len());
        },
        WalletStep::Executed(Ok(ResponseResult::ListInvoices(list))) => {
            assert(views(list@).len() == list@.len());
        },
        _ => {},
    }
}

/// Hold invoices are answered without the node.
pub proof fn hold_invoices_are_answered_at_once(
    params: RequestParams,
    ctx: WalletContext,
    step: WalletStep,
)
    requires
        call_ensures(begin_request, (&params, &ctx), step),
    ensures
        params is CancelHoldInvoice ==> step matches WalletStep::Executed(
            Ok(ResponseResult::CancelHoldInvoice),
        ),
        params is SettleHoldInvoice ==> step matches WalletStep::Executed(
            Ok(ResponseResult::SettleHoldInvoice),
        ),
        params is MakeHoldInvoice ==> (step matches WalletStep::Executed(
            Ok(ResponseResult::MakeHoldInvoice(r)),
        ) && r.transaction_type == TransactionType::Incoming && r.created_at == ctx.now
            && r.expires_at == ctx.now && r.amount == 0 && r.payment_hash@ == "00"@),
{
}

/// The parameters of a request suit its method: they are those of the method,
/// name what has to be named, and no amount of nothing.
pub open spec fn params_suit(method: Method, params: RequestParams) -> bool {
    match method {
        Method::GetInfo => params is GetInfo,
        Method::GetBalance => params is GetBalance,
        Method::PayInvoice => params matches RequestParams::PayInvoice(p) && !blank(p.invoice@)
            && (p.amount matches Some(n) ==> n > 0),
        Method::PayKeysend => params matches RequestParams::PayKeysend(p) && !blank(p.pubkey@)
            && p.amount > 0,
        Method::MakeInvoice => params matches RequestParams::MakeInvoice(p) && p.amount > 0,
        Method::LookupInvoice => params matches RequestParams::LookupInvoice(p) && ((
        p.payment_hash matches Some(t) && t@.len() > 0) || (p.invoice matches Some(t) && t@.len()
            > 0)),
        Method::ListTransactions => params is ListTransactions,
        Method::MakeHoldInvoice => params matches RequestParams::MakeHoldInvoice(p) && !blank(
            p.payment_hash@,
        ) && p.amount > 0,
        Method::CancelHoldInvoice => params matches RequestParams::CancelHoldInvoice(p) && !blank(
            p.payment_hash@,
        ),
        Method::SettleHoldInvoice => params matches RequestParams::SettleHoldInvoice(p) && !blank(
            p.preimage@,
        ),
        Method::MakeNewAddress => params is MakeNewAddress,
        Method::PayOnchain => params matches RequestParams::PayOnchain(p) && !blank(p.address@)
            && p.amount > 0,
        Method::MakeOffer => params matches RequestParams::MakeOffer(p) && p.amount > 0 && !blank(
            p.description@,
        ),
        Method::PayOffer => params matches RequestParams::PayOffer(p) && !blank(p.offer@),
        Method::LookupOffer => params matches RequestParams::LookupOffer(p) && !blank(p.offer@),
        Method::DisableOffer => params matches RequestParams::DisableOffer(p) && !blank(p.offer@),
        Method::LookupAddress => params matches RequestParams::LookupAddress(p) && !blank(
            p.address@,
        ),
        Method::PayBip321 => params matches RequestParams::PayBip321(p) && !blank(p.uri@)
            && uri_reading(p.uri@) is Ok,
        Method::ListOffers => params is ListOffers,
        Method::ListAddresses => params is ListAddresses,
        Method::ListInvoices => params is ListInvoices,
        Method::SubscribeNotifications => params is SubscribeNotifications,
        Method::Unknown(_) => true,
    }
}

/// A request passes the check exactly if its parameters suit its method. The
/// error of one that does not has no code of its own.
pub proof fn only_fitting_parameters_pass(request: Request, out: Result<(), NIP47Error>)
    requires
        call_ensures(validate, (&request,), out),
    ensures
        out is Ok <==> params_suit(request.method, request.params),
        out matches Err(e) ==> e.code == ErrorCode::Other,
{
}

/// The parameters are those of the method.
pub open spec fn params_are_of(method: Method, params: RequestParams) -> bool {
    match method {
        Method::GetInfo => params is GetInfo,
        Method::GetBalance => params is GetBalance,
        Method::PayInvoice => params is PayInvoice,
        Method::PayKeysend => params is PayKeysend,
        Method::MakeInvoice => params is MakeInvoice,
        Method::LookupInvoice => params is LookupInvoice,
        Method::ListTransactions => params is ListTransactions,
        Method::MakeHoldInvoice => params is MakeHoldInvoice,
        Method::CancelHoldInvoice => params is CancelHoldInvoice,
        Method::SettleHoldInvoice => params is SettleHoldInvoice,
        Method::PayOnchain => params is PayOnchain,
        Method::MakeNewAddress => params is MakeNewAddress,
        Method::PayOffer => params is PayOffer,
        Method::MakeOffer => params is MakeOffer,
        Method::LookupOffer => params is LookupOffer,
        Method::LookupAddress => params is LookupAddress,
        Method::PayBip321 => params is PayBip321,
        Method::SubscribeNotifications => params is SubscribeNotifications,
        Method::ListOffers => params is ListOffers,
        Method::DisableOffer => params is DisableOffer,
        Method::ListAddresses => params is ListAddresses,
        Method::ListInvoices => params is ListInvoices,
        Method::Unknown(_) => true,
    }
}

proof fn lemma_method_refusals()
    ensures
        "invalid params for "@ + "get_info"@ == "invalid params for get_info"@,
        "invalid params for "@ + "get_balance"@ == "invalid params for get_balance"@,
        "invalid params for "@ + "pay_invoice"@ == "invalid params for pay_invoice"@,
        "invalid params for "@ + "pay_keysend"@ == "invalid params for pay_keysend"@,
        "invalid params for "@ + "make_invoice"@ == "invalid params for make_invoice"@,
        "invalid params for "@ + "lookup_invoice"@ == "invalid params for lookup_invoice"@,
        "invalid params for "@ + "list_transactions"@ == "invalid params for list_transactions"@,
        "invalid params for "@ + "make_hold_invoice"@ == "invalid params for make_hold_invoice"@,
        "invalid params for "@ + "cancel_hold_invoice"@ == "invalid params for cancel_hold_invoice"@,
        "invalid params for "@ + "settle_hold_invoice"@ == "invalid params for settle_hold_invoice"@,
        "invalid params for "@ + "pay_onchain"@ == "invalid params for pay_onchain"@,
        "invalid params for "@ + "make_new_address"@ == "invalid params for make_new_address"@,
        "invalid params for "@ + "pay_offer"@ == "invalid params for pay_offer"@,
        "invalid params for "@ + "make_offer"@ == "invalid params for make_offer"@,
        "invalid params for "@ + "lookup_offer"@ == "invalid params for lookup_offer"@,
        "invalid params for "@ + "lookup_address"@ == "invalid params for lookup_address"@,
        "invalid params for "@ + "pay_bip321"@ == "invalid params for pay_bip321"@,
        "invalid params for "@ + "subscribe_notifications"@ == "invalid params for subscribe_notifications"@,
        "invalid params for "@ + "list_offers"@ == "invalid params for list_offers"@,
        "invalid params for "@ + "disable_offer"@ == "invalid params for disable_offer"@,
        "invalid params for "@ + "list_addresses"@ == "invalid params for list_addresses"@,
        "invalid params for "@ + "list_invoices"@ == "invalid params for list_invoices"@,
{
    assert("invalid params for "@ + "get_info"@ == "invalid params for get_info"@) by {
        reveal_strlit("invalid params for ");
        reveal_strlit("get_info");
        reveal_strlit("invalid params for get_info");
    }
    assert("invalid params for "@ + "get_balance"@ == "invalid params for get_balance"@) by {
        reveal_strlit("invalid params for ");
        reveal_strlit("get_balance");
        reveal_strlit("invalid params for get_balance");
    }
    assert("invalid params for "@ + "pay_invoice"@ == "invalid params for pay_invoice"@) by {
        reveal_strlit("invalid params for ");
        reveal_strlit("pay_invoice");
        reveal_strlit("invalid params for pay_invoice");
    }
    assert("invalid params for "@ + "pay_keysend"@ == "invalid params for pay_keysend"@) by {
        reveal_strlit("invalid params for ");
        reveal_strlit("pay_keysend");
        reveal_strlit("invalid params for pay_keysend");
    }
    assert("invalid params for "@ + "make_invoice"@ == "invalid params for make_invoice"@) by {
        reveal_strlit("invalid params for ");
        reveal_strlit("make_invoice");
        reveal_strlit("invalid params for make_invoice");
    }
    assert("invalid params for "@ + "lookup_invoice"@ == "invalid params for lookup_invoice"@) by {
        reveal_strlit("invalid params for ");
        reveal_strlit("lookup_invoice");
        reveal_strlit("invalid params for lookup_invoice");
    }
    assert("invalid params for "@ + "list_transactions"@ == "invalid params for list_transactions"@) by {
        reveal_strlit("invalid params for ");
        reveal_strlit("list_transactions");
        reveal_strlit("invalid params for list_transactions");
    }
    assert("invalid params for "@ + "make_hold_invoice"@ == "invalid params for make_hold_invoice"@) by {
        reveal_strlit("invalid params for ");
        reveal_strlit("make_hold_invoice");
        reveal_strlit("invalid params for make_hold_invoice");
    }
    assert("invalid params for "@ + "cancel_hold_invoice"@ == "invalid params for cancel_hold_invoice"@) by {
        reveal_strlit("invalid params for ");
        reveal_strlit("cancel_hold_invoice");
        reveal_strlit("invalid params for cancel_hold_invoice");
    }
    assert("invalid params for "@ + "settle_hold_invoice"@ == "invalid params for settle_hold_invoice"@) by {
        reveal_strlit("invalid params for ");
        reveal_strlit("settle_hold_invoice");
        reveal_strlit("invalid params for settle_hold_invoice");
    }
    assert("invalid params for "@ + "pay_onchain"@ == "invalid params for pay_onchain"@) by {
        reveal_strlit("invalid params for ");
        reveal_strlit("pay_onchain");
        reveal_strlit("invalid params for pay_onchain");
    }
    assert("invalid params for "@ + "make_new_address"@ == "invalid params for make_new_address"@) by {
        reveal_strlit("invalid params for ");
        reveal_strlit("make_new_address");
        reveal_strlit("invalid params for make_new_address");
    }
    assert("invalid params for "@ + "pay_offer"@ == "invalid params for pay_offer"@) by {
        reveal_strlit("invalid params for ");
        reveal_strlit("pay_offer");
        reveal_strlit("invalid params for pay_offer");
    }
    assert("invalid params for "@ + "make_offer"@ == "invalid params for make_offer"@) by {
        reveal_strlit("invalid params for ");
        reveal_strlit("make_offer");
        reveal_strlit("invalid params for make_offer");
    }
    assert("invalid params for "@ + "lookup_offer"@ == "invalid params for lookup_offer"@) by {
        reveal_strlit("invalid params for ");
        reveal_strlit("lookup_offer");
        reveal_strlit("invalid params for lookup_offer");
    }
    assert("invalid params for "@ + "lookup_address"@ == "invalid params for lookup_address"@) by {
        reveal_strlit("invalid params for ");
        reveal_strlit("lookup_address");
        reveal_strlit("invalid params for lookup_address");
    }
    assert("invalid params for "@ + "pay_bip321"@ == "invalid params for pay_bip321"@) by {
        reveal_strlit("invalid params for ");
        reveal_strlit("pay_bip321");
        reveal_strlit("invalid params for pay_bip321");
    }
    assert("invalid params for "@ + "subscribe_notifications"@ == "invalid params for subscribe_notifications"@) by {
        reveal_strlit("invalid params for ");
        reveal_strlit("subscribe_notifications");
        reveal_strlit("invalid params for subscribe_notifications");
    }
    assert("invalid params for "@ + "list_offers"@ == "invalid params for list_offers"@) by {
        reveal_strlit("invalid params for ");
        reveal_strlit("list_offers");
        reveal_strlit("invalid params for list_offers");
    }
    assert("invalid params for "@ + "disable_offer"@ == "invalid params for disable_offer"@) by {
        reveal_strlit("invalid params for ");
        reveal_strlit("disable_offer");
        reveal_strlit("invalid params for disable_offer");
    }
    assert("invalid params for "@ + "list_addresses"@ == "invalid params for list_addresses"@) by {
        reveal_strlit("invalid params for ");
        reveal_strlit("list_addresses");
        reveal_strlit("invalid params for list_addresses");
    }
    assert("invalid params for "@ + "list_invoices"@ == "invalid params for list_invoices"@) by {
        reveal_strlit("invalid params for ");
        reveal_strlit("list_invoices");
        reveal_strlit("invalid params for list_invoices");
    }
}

/// A request with the parameters of another method is told so by the name of its
/// own. Where something has to be named it is told what, and where the amount is
/// nothing that it must not be.
pub proof fn refusals_say_what_is_wrong(
    request: Request,
    out: Result<(), NIP47Error>,
    name: &str,
    e: NIP47Error,
)
    requires
        call_ensures(validate, (&request,), out),
        call_ensures(Method::as_str, (&request.method,), name),
        out == Err::<(), NIP47Error>(e),
    ensures
        !params_are_of(request.method, request.params) ==> e.message@ == "invalid params for "@
            + name@,
        params_are_of(request.method, request.params) ==> match request.params {
            RequestParams::PayInvoice(p) => e.message@ == if blank(p.invoice@) {
                "invoice is required"@
            } else {
                "amount must be greater than 0"@
            },
            RequestParams::PayKeysend(p) => e.message@ == if blank(p.pubkey@) {
                "pubkey is required"@
            } else {
                "amount must be greater than 0"@
            },
            RequestParams::PayOnchain(p) => e.message@ == if blank(p.address@) {
                "address is required"@
            } else {
                "amount must be greater than 0"@
            },
            RequestParams::MakeHoldInvoice(p) => e.message@ == if blank(p.payment_hash@) {
                "payment_hash is required"@
            } else {
                "amount must be greater than 0"@
            },
            RequestParams::MakeOffer(p) => e.message@ == if p.amount == 0 {
                "amount must be greater than 0"@
            } else {
                "description is required"@
            },
            RequestParams::MakeInvoice(_) => e.message@ == "amount must be greater than 0"@,
            RequestParams::LookupInvoice(_) => e.message@ == "payment_hash or invoice is required"@,
            RequestParams::CancelHoldInvoice(_) => e.message@ == "payment_hash is required"@,
            RequestParams::SettleHoldInvoice(_) => e.message@ == "preimage is required"@,
            RequestParams::PayOffer(_) => e.message@ == "offer is required"@,
            RequestParams::LookupOffer(_) => e.message@ == "offer is required"@,
            RequestParams::DisableOffer(_) => e.message@ == "offer is required"@,
            RequestParams::LookupAddress(_) => e.message@ == "address is required"@,
            RequestParams::PayBip321(p) => if blank(p.uri@) {
                e.message@ == "uri is required"@
            } else {
                uri_reading(p.uri@) matches Err(m) && e.message@ == "invalid BIP-321 URI: "@ + m
            },
            _ => false,
        },
{
    lemma_method_refusals();
}

/// A request that does not pass is answered with the error of the check, and
/// changes nothing.
pub proof fn unfit_requests_are_answered_at_once(
    request: Request,
    caller: Seq<char>,
    ctx: WalletContext,
    failures: Set<Method<Seq<char>>>,
    before: Stores,
    after: Stores,
    out: RequestStart,
)
    requires
        starts(request, caller, ctx, failures, before, after, out),
        !(request.method is SubscribeNotifications),
    ensures
        request.method matches Method::Unknown(name) ==> after == before && (
        out matches RequestStart::Answer(r) && r.result is None && r.result_type@
            == request.method@ && (r.error matches Some(e) && e.code == ErrorCode::NotImplemented
            && e.message@ == name@ + " not implemented yet"@)),
        !(request.method is Unknown) && !params_suit(request.method, request.params) ==> after
            == before && (out matches RequestStart::Answer(r) && r.result is None && r.result_type@
            == request.method@ && (r.error matches Some(e) && e.code == ErrorCode::Other)),
        !(request.method is Unknown) && params_suit(request.method, request.params)
            ==> out is Execute,
{
}

/// A request that passes is carried out as the wallet carries out its parameters,
/// and changes nothing but the records that it is about, unless its method is
/// made to fail.
pub proof fn fitting_requests_are_carried_out(
    request: Request,
    caller: Seq<char>,
    ctx: WalletContext,
    failures: Set<Method<Seq<char>>>,
    before: Stores,
    after: Stores,
    out: RequestStart,
    begun: WalletStep,
)
    requires
        starts(request, caller, ctx, failures, before, after, out),
        !(request.method is SubscribeNotifications),
        !(request.method is Unknown),
        params_suit(request.method, request.params),
        call_ensures(begin_request, (&request.params, &ctx), begun),
    ensures
        failures.contains(request.method@) ==> after == before && (out matches RequestStart::Execute(
            s,
        ) && fails_with(s, ErrorCode::Other)),
        !failures.contains(request.method@) && !(request.params is LookupOffer
            || request.params is ListOffers || request.params is DisableOffer
            || request.params is LookupAddress || request.params is ListAddresses) ==> after
            == before && (out matches RequestStart::Execute(s) && s@ == begun@),
        !failures.contains(request.method@) && (request.params is LookupOffer
            || request.params is ListOffers || request.params is DisableOffer
            || request.params is LookupAddress || request.params is ListAddresses) ==> (
        out matches RequestStart::Execute(s) && answers_from_records(
            request.params,
            before,
            after,
            s@,
        )),
{
}

/// A wallet client can be told of the payments that come in and go out, and of
/// those that wait.
pub open spec fn is_wallet_event(kind: Seq<char>) -> bool {
    kind == "payment_received"@ || kind == "payment_sent"@ || kind == "hold_invoice_accepted"@
}

proof fn lemma_wallet_events(kind: Seq<char>)
    ensures
        wallet_notifications().contains(kind) <==> is_wallet_event(kind),
{
    let all = wallet_notifications();
    assert(all[0] == "payment_received"@);
    assert(all[1] == "payment_sent"@);
    assert(all[2] == "hold_invoice_accepted"@);
    if all.contains(kind) {
        let i = choose|i: int| 0 <= i < all.len() && all[i] == kind;
        assert(i == 0 || i == 1 || i == 2);
    }
}

pub(crate) proof fn lemma_first_unknown(wanted: Seq<Seq<char>>, known: Seq<Seq<char>>)
    ensures
        first_unknown(wanted, known) is None <==> forall|i: int|
            0 <= i < wanted.len() ==> known.contains(#[trigger] wanted[i]),
    decreases wanted.len(),
{
    if wanted.len() > 0 {
        let rest = wanted.skip(1);
        lemma_first_unknown(rest, known);
        if known.contains(wanted[0]) {
            if forall|i: int| 0 <= i < rest.len() ==> known.contains(#[trigger] rest[i]) {
                assert forall|i: int| 0 <= i < wanted.len() implies known.contains(
                    #[trigger] wanted[i],
                ) by {
                    if i > 0 {
                        assert(rest[i - 1] == wanted[i]);
                    }
                }
            } else {
                let i = choose|i: int| 0 <= i < rest.len() && !known.contains(#[trigger] rest[i]);
                assert(wanted[i + 1] == rest[i]);
            }
        }
    }
}

/// A client that asks to be told of events that exist is from then on told of
/// exactly those; one that asks for others gets an error and keeps what it had.
/// No other client is touched.
pub proof fn clients_subscribe_to_what_they_name(
    request: Request,
    caller: Seq<char>,
    ctx: WalletContext,
    failures: Set<Method<Seq<char>>>,
    before: Stores,
    after: Stores,
    out: RequestStart,
    types: Seq<String>,
    other: Seq<char>,
    kind: Seq<char>,
)
    requires
        starts(request, caller, ctx, failures, before, after, out),
        request.method is SubscribeNotifications,
        request.params matches RequestParams::SubscribeNotifications(p) && p.types@ == types,
    ensures
        after.offers == before.offers && after.addresses == before.addresses && after.forwards
            == before.forwards,
        (forall|i: int| 0 <= i < types.len() ==> is_wallet_event((#[trigger] types[i])@)) ==> {
            &&& out matches RequestStart::Answer(r)
            &&& r.error is None
            &&& r.result == Some(ResponseResult::SubscribeNotifications)
            &&& subscribed(after.subscriptions@, caller, kind) <==> exists|i: int|
                0 <= i < types.len() && (#[trigger] types[i])@ == kind
        },
        (exists|i: int| 0 <= i < types.len() && !is_wallet_event((#[trigger] types[i])@)) ==> {
            &&& out matches RequestStart::Answer(r) && r.result is None && (r.error matches Some(e)
                && e.code == ErrorCode::Other)
            &&& after.subscriptions@ == before.subscriptions@
        },
        other != caller ==> (subscribed(after.subscriptions@, other, kind) <==> subscribed(
            before.subscriptions@,
            other,
            kind,
        )),
{
    let names = texts(types);
    let known = wallet_notifications();
    lemma_first_unknown(names, known);
    assert forall|k: Seq<char>| #[trigger] known.contains(k) == is_wallet_event(k) by {
        lemma_wallet_events(k);
    }
    if forall|i: int| 0 <= i < types.len() ==> is_wallet_event((#[trigger] types[i])@) {
        assert forall|i: int| 0 <= i < names.len() implies known.contains(#[trigger] names[i]) by {
            assert(names[i] == types[i]@);
        }
        assert(names.to_set().contains(kind) <==> exists|i: int|
            0 <= i < types.len() && (#[trigger] types[i])@ == kind) by {
            if names.to_set().contains(kind) {
                let i = choose|i: int| 0 <= i < names.len() && names[i] == kind;
                assert(types[i]@ == kind);
            }
            if exists|i: int| 0 <= i < types.len() && (#[trigger] types[i])@ == kind {
                let i = choose|i: int| 0 <= i < types.len() && (#[trigger] types[i])@ == kind;
                assert(names[i] == kind);
                assert(names.contains(kind));
            }
        }
    } else {
        let i = choose|i: int| 0 <= i < types.len() && !is_wallet_event((#[trigger] types[i])@);
        assert(names[i] == types[i]@);
        assert(!known.contains(names[i]));
    }
}

/// A request that was carried out is answered with its result and keeps its
/// debits; one that failed is answered with its error and gets them back.
pub proof fn failed_requests_get_their_debits_back(
    method: Method,
    executed: Result<ResponseResult, NIP47Error>,
    end: RequestEnd,
    reason: &str,
    broken: RequestEnd,
)
    requires
        call_ensures(finish_request, (&method, executed), end),
        call_ensures(break_off_request, (&method, reason), broken),
    ensures
        end.response.result_type@ == method@,
        executed matches Ok(r) ==> !end.refund && end.response.error is None && (
        end.response.result matches Some(told) && told@ == r@),
        executed matches Err(e) ==> end.refund && end.response.result is None && (
        end.response.error matches Some(told) && told.code == e.code && told.message@ == e.message@),
        broken.refund && broken.response.result is None && (broken.response.error matches Some(told)
            && told.code == ErrorCode::Other),
{
}

/// An error of the node is told with the code that is given and the name of the
/// operation.
pub proof fn node_errors_name_the_operation(
    operation: &str,
    code: ErrorCode,
    error: LdkServiceError,
    told: NIP47Error,
    text: String,
)
    requires
        call_ensures(map_ldk_service_error, (operation, code, &error), told),
        call_ensures(LdkServiceError::to_string, (&error,), text),
    ensures
        told.code == code,
        told.message@ == "ldk "@ + operation@ + " failed: "@ + text@,
{
}

} // verus!
