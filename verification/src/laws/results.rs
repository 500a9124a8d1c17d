//! What requests to the wallet come to when the node has answered.

use vstd::prelude::*;

#[allow(unused_imports)]
use crate::laws::payments::{goes_by, has_preimage, is_watched, lemma_watched};
#[allow(unused_imports)]
use crate::lightning::hex::hex_text;
use crate::lightning::ldk_service::Network;
use crate::lightning::node::{NodeCall, NodeReply};
#[allow(unused_imports)]
use crate::lightning::parse::uri_reading;
#[allow(unused_imports)]
use crate::lightning::payments::{filter_payments, preimage_of_kind};
use crate::lightning::payments::{
    PaymentDetails, PaymentDirection, PaymentFilter, PaymentKind, PaymentStatus,
};
use crate::nip47::{
    ErrorCode, ListInvoicesRequest, ListTransactionsRequest, ListedInvoice,
    LookupInvoiceResponse, RequestParams, ResponseResult, TransactionState, TransactionType,
};
#[allow(unused_imports)]
use crate::state::address_store::AddressView;
#[allow(unused_imports)]
use crate::state::offer_store::OfferView;
#[allow(unused_imports)]
use crate::text::{opt_text, texts};
#[allow(unused_imports)]
use crate::views::views;
#[allow(unused_imports)]
use crate::wallet::execute::{
    is_listed, listed_invoice, lookup_response, payment_details_to_lookup_response,
};
use crate::wallet::execute::{WalletContext, WalletStep};
#[allow(unused_imports)]
use crate::wallet::proceed::{new_address, new_offer, proceed, with_address, with_offer};

verus! {

/// A payment is told as it is: with its direction, state, amount and fee, its
/// times, its method, and its hash and preimage in hexadecimal.
pub open spec fn tells_payment(told: LookupInvoiceResponse, p: PaymentDetails) -> bool {
    &&& told.transaction_type == Some(TransactionType::Incoming) <==> p.direction
        == PaymentDirection::Inbound
    &&& told.transaction_type == Some(TransactionType::Outgoing) <==> p.direction
        == PaymentDirection::Outbound
    &&& told.state == Some(TransactionState::Pending) <==> p.status == PaymentStatus::Pending
    &&& told.state == Some(TransactionState::Settled) <==> p.status == PaymentStatus::Succeeded
    &&& told.state == Some(TransactionState::Failed) <==> p.status == PaymentStatus::Failed
    &&& p.amount_msat matches Some(n) ==> told.amount == n
    &&& p.amount_msat is None ==> told.amount == 0
    &&& p.fee_paid_msat matches Some(n) ==> told.fees_paid == n
    &&& p.fee_paid_msat is None ==> told.fees_paid == 0
    &&& p.latest_update_timestamp > 0 ==> told.created_at == Some(p.latest_update_timestamp)
    &&& p.latest_update_timestamp == 0 ==> told.created_at is None
    &&& p.status == PaymentStatus::Succeeded ==> told.settled_at == Some(p.latest_update_timestamp)
    &&& p.status != PaymentStatus::Succeeded ==> told.settled_at is None
    &&& told.payment_method matches Some(m) && goes_by(p.kind, m)
    &&& tells_hash(told.payment_hash@, p.kind)
    &&& forall|b: [u8; 32]| #[trigger]
        has_preimage(p.kind, b) ==> (told.preimage matches Some(t) && t@ == hex_text(b@))
    &&& (forall|b: [u8; 32]| !#[trigger] has_preimage(p.kind, b)) ==> told.preimage is None
}

/// The text is the hash of a payment of the kind in hexadecimal, or empty where
/// it has none.
pub open spec fn tells_hash(text: Seq<char>, kind: PaymentKind) -> bool {
    match kind {
        PaymentKind::Bolt11 { hash, .. } => text == hex_text(hash@),
        PaymentKind::Bolt11Jit { hash, .. } => text == hex_text(hash@),
        PaymentKind::Spontaneous { hash, .. } => text == hex_text(hash@),
        PaymentKind::Bolt12Offer { hash: Some(hash), .. } => text == hex_text(hash@),
        PaymentKind::Bolt12Refund { hash: Some(hash), .. } => text == hex_text(hash@),
        _ => text.len() == 0,
    }
}

proof fn lemma_tells_payment(told: LookupInvoiceResponse, p: PaymentDetails)
    requires
        told@ == lookup_response(p),
    ensures
        tells_payment(told, p),
{
    assert forall|b: [u8; 32]| #[trigger] has_preimage(p.kind, b) implies (told.preimage matches Some(
        t,
    ) && t@ == hex_text(b@)) by {
        assert(preimage_of_kind(p.kind) == Some(b));
    }
    if let Some(b) = preimage_of_kind(p.kind) {
        assert(has_preimage(p.kind, b));
    }
}

/// A payment is told as it is.
pub proof fn payments_are_told_as_they_are(p: PaymentDetails, told: LookupInvoiceResponse)
    requires
        call_ensures(payment_details_to_lookup_response, (&p,), told),
    ensures
        tells_payment(told, p),
        told.invoice is None && told.description is None && told.description_hash is None
            && told.expires_at is None,
{
    lemma_tells_payment(told, p);
}

/// A request whose payment succeeded tells the preimage and the fee of that very
/// payment.
pub proof fn paid_requests_tell_the_preimage(
    params: RequestParams,
    ctx: WalletContext,
    call: NodeCall,
    id: [u8; 32],
    payments: Vec<PaymentDetails>,
    elapsed_nanos: u128,
    step: WalletStep,
    i: int,
    preimage: [u8; 32],
)
    requires
        step@ == proceed(params, ctx, call@, NodeReply::Watched { payments, elapsed_nanos }),
        call matches NodeCall::WatchPayment { id: watched, .. } && watched == id,
        is_watched(payments@, id, i),
        payments@[i].status == PaymentStatus::Succeeded,
        has_preimage(payments@[i].kind, preimage),
    ensures
        params is PayInvoice ==> (step matches WalletStep::Executed(Ok(ResponseResult::PayInvoice(r)))
            && r.preimage@ == hex_text(preimage@) && r.fees_paid == payments@[i].fee_paid_msat),
        params is PayKeysend ==> (step matches WalletStep::Executed(Ok(ResponseResult::PayKeysend(r)))
            && r.preimage@ == hex_text(preimage@) && r.fees_paid == payments@[i].fee_paid_msat),
        params is PayOffer ==> (step matches WalletStep::Executed(Ok(ResponseResult::PayOffer(r)))
            && opt_text(r.preimage) == Some(hex_text(preimage@)) && r.fees_paid
            == payments@[i].fee_paid_msat),
        params matches RequestParams::PayBip321(p) ==> (step matches WalletStep::Executed(
            Ok(ResponseResult::PayBip321(r)),
        ) && opt_text(r.preimage) == Some(hex_text(preimage@)) && r.txid is None && r.fees_paid
            == payments@[i].fee_paid_msat && (uri_reading(p.uri@) matches Ok(uri)
            ==> r.payment_method@ == if uri.lightning.len() > 0 {
            "bolt11"@
        } else {
            "bolt12"@
        })),
{
    lemma_watched(payments@, id, i);
}

/// The step fails with the given code.
pub open spec fn fails_with(step: WalletStep, code: ErrorCode) -> bool {
    step matches WalletStep::Executed(Err(e)) && e.code == code
}

/// A payment is a Lightning payment that a request asks for.
pub open spec fn pays_over_lightning(params: RequestParams) -> bool {
    params is PayInvoice || params is PayKeysend || params is PayOffer || params is PayBip321
}

/// A request whose payment failed fails as a payment does.
pub proof fn failed_payments_fail_the_request(
    params: RequestParams,
    ctx: WalletContext,
    call: NodeCall,
    id: [u8; 32],
    payments: Vec<PaymentDetails>,
    elapsed_nanos: u128,
    step: WalletStep,
    i: int,
)
    requires
        step@ == proceed(params, ctx, call@, NodeReply::Watched { payments, elapsed_nanos }),
        call matches NodeCall::WatchPayment { id: watched, .. } && watched == id,
        pays_over_lightning(params),
        is_watched(payments@, id, i),
        payments@[i].status == PaymentStatus::Failed,
    ensures
        fails_with(step, ErrorCode::PaymentFailed),
{
    lemma_watched(payments@, id, i);
}

/// A payment that is under way is looked at again after a tenth of a second, for
/// up to a minute.
pub proof fn pending_payments_are_watched_on(
    params: RequestParams,
    ctx: WalletContext,
    call: NodeCall,
    id: [u8; 32],
    payments: Vec<PaymentDetails>,
    elapsed_nanos: u128,
    step: WalletStep,
    i: int,
)
    requires
        step@ == proceed(params, ctx, call@, NodeReply::Watched { payments, elapsed_nanos }),
        call matches NodeCall::WatchPayment { id: watched, .. } && watched == id,
        pays_over_lightning(params),
        is_watched(payments@, id, i),
        payments@[i].status == PaymentStatus::Pending,
    ensures
        elapsed_nanos <= 60_000_000_000 ==> (step matches WalletStep::Ask(
            NodeCall::WatchPayment { id: next, pause_ms },
        ) && next == id && pause_ms == 100),
        elapsed_nanos > 60_000_000_000 ==> fails_with(step, ErrorCode::PaymentFailed),
{
    lemma_watched(payments@, id, i);
}

/// A payment that was sent is watched under the id that the node gave it; one
/// that could not be sent fails the request.
pub proof fn sent_payments_are_watched(
    params: RequestParams,
    ctx: WalletContext,
    call: NodeCall,
    sent: Result<[u8; 32], String>,
    step: WalletStep,
)
    requires
        step@ == proceed(params, ctx, call@, NodeReply::Sent(sent)),
        call is SendBolt11 || call is SendKeysend || call is SendOffer,
        pays_over_lightning(params),
    ensures
        sent matches Ok(given) ==> (step matches WalletStep::Ask(
            NodeCall::WatchPayment { id, pause_ms },
        ) && id == given && pause_ms == 0),
        sent is Err ==> fails_with(step, ErrorCode::PaymentFailed),
{
}

/// The balance is read once the wallets are up to date, and told in
/// millisatoshis: the whole, and what is held over Lightning and on chain.
pub proof fn balances_are_told(
    ctx: WalletContext,
    synced: WalletStep,
    told: WalletStep,
    onchain: u64,
    lightning: u64,
)
    requires
        synced@ == proceed(
            RequestParams::GetBalance,
            ctx,
            NodeCall::SyncWallets,
            NodeReply::Done(Ok(())),
        ),
        told@ == proceed(
            RequestParams::GetBalance,
            ctx,
            NodeCall::ListBalances,
            NodeReply::Balances {
                spendable_onchain_sats: onchain,
                total_lightning_sats: lightning,
            },
        ),
    ensures
        synced matches WalletStep::Ask(NodeCall::ListBalances),
        (onchain + lightning) * 1000 <= u64::MAX ==> (told matches WalletStep::Executed(
            Ok(ResponseResult::GetBalance(r)),
        ) && r.balance == 1000 * (onchain + lightning) && r.lightning_balance == Some(
            (1000 * lightning) as u64,
        ) && r.onchain_balance == Some((1000 * onchain) as u64)),
        (onchain + lightning) * 1000 > u64::MAX ==> fails_with(told, ErrorCode::Other),
{
}

/// A balance is not told where the wallets could not be brought up to date.
pub proof fn balances_need_synced_wallets(ctx: WalletContext, reason: String, step: WalletStep)
    requires
        step@ == proceed(
            RequestParams::GetBalance,
            ctx,
            NodeCall::SyncWallets,
            NodeReply::Done(Err(reason)),
        ),
    ensures
        fails_with(step, ErrorCode::Other),
{
}

/// What the wallet tells of itself is the key, the network and the height of the
/// node, its configured name, the methods that the client may call, and the
/// kinds of events that it can be told of.
pub proof fn the_node_is_told_as_it_is(ctx: WalletContext, height: u32, step: WalletStep)
    requires
        step@ == proceed(RequestParams::GetInfo, ctx, NodeCall::Status, NodeReply::Height(height)),
        ctx.service is Some,
    ensures
        step matches WalletStep::Executed(Ok(ResponseResult::GetInfo(r))) && {
            &&& r.block_height == Some(height)
            &&& opt_text(r.pubkey) == Some(hex_text(ctx.service->0.id().bytes@))
            &&& ctx.service->0.net() == Network::Bitcoin ==> opt_text(r.network) == Some(
                "bitcoin"@,
            )
            &&& ctx.service->0.net() == Network::Testnet ==> opt_text(r.network) == Some(
                "testnet"@,
            )
            &&& ctx.service->0.net() == Network::Signet ==> opt_text(r.network) == Some("signet"@)
            &&& ctx.service->0.net() == Network::Regtest ==> opt_text(r.network) == Some(
                "regtest"@,
            )
            &&& ctx.alias matches Some(alias) ==> opt_text(r.alias) == Some(alias@)
            &&& ctx.alias is None ==> opt_text(r.alias) == Some("ldk-controller"@)
            &&& views(r.methods@) == views(ctx.methods@)
            &&& r.notifications@.len() == 3
            &&& r.notifications@[0]@ == "payment_received"@
            &&& r.notifications@[1]@ == "payment_sent"@
            &&& r.notifications@[2]@ == "hold_invoice_accepted"@
        },
{
    if let WalletStep::Executed(Ok(ResponseResult::GetInfo(r))) = step {
        let told = texts(r.notifications@);
        assert(told.len() == r.notifications@.len());
        assert(told[0] == r.notifications@[0]@);
        assert(told[1] == r.notifications@[1]@);
        assert(told[2] == r.notifications@[2]@);
    }
}

/// A new invoice is told as the node made it, with the description that was asked
/// for.
pub proof fn invoices_are_told_as_made(
    p: crate::nip47::MakeInvoiceRequest,
    ctx: WalletContext,
    call: NodeCall,
    made: crate::lightning::ldk_service::LdkInvoiceResult,
    step: WalletStep,
)
    requires
        step@ == proceed(
            RequestParams::MakeInvoice(p),
            ctx,
            call@,
            NodeReply::Invoice(Ok(made)),
        ),
        call is ReceiveBolt11,
    ensures
        step matches WalletStep::Executed(Ok(ResponseResult::MakeInvoice(r))) && {
            &&& r.invoice@ == made.invoice@
            &&& opt_text(r.payment_hash) == opt_text(made.payment_hash)
            &&& opt_text(r.description) == opt_text(p.description)
            &&& opt_text(r.description_hash) == opt_text(p.description_hash)
            &&& r.preimage is None
            &&& r.amount == made.amount_msat
            &&& r.created_at == Some(ctx.now)
            &&& r.expires_at == made.expires_at
        },
{
}

/// A payment that was looked up is told as it is; one that the node does not know
/// is not found.
pub proof fn looked_up_payments_are_told(
    p: crate::nip47::LookupInvoiceRequest,
    ctx: WalletContext,
    call: NodeCall,
    found: Option<PaymentDetails>,
    step: WalletStep,
)
    requires
        step@ == proceed(RequestParams::LookupInvoice(p), ctx, call@, NodeReply::Payment(found)),
        call is FindPayment,
    ensures
        found matches Some(payment) ==> (step matches WalletStep::Executed(
            Ok(ResponseResult::LookupInvoice(r)),
        ) && tells_payment(r, payment)),
        found is None ==> fails_with(step, ErrorCode::NotFound),
{
    if let WalletStep::Executed(Ok(ResponseResult::LookupInvoice(r))) = step {
        if let Some(payment) = found {
            lemma_tells_payment(r, payment);
        }
    }
}

/// The filter asks for what a request for transactions names.
pub open spec fn filters_as_asked(f: PaymentFilter, p: ListTransactionsRequest) -> bool {
    &&& f.from == p.from
    &&& f.until == p.until
    &&& f.unpaid == p.unpaid
    &&& f.payment_method == p.payment_method
    &&& f.direction == Some(PaymentDirection::Inbound) <==> p.transaction_type == Some(
        TransactionType::Incoming,
    )
    &&& f.direction == Some(PaymentDirection::Outbound) <==> p.transaction_type == Some(
        TransactionType::Outgoing,
    )
}

/// The transactions are the payments that the filter asks for, on the page that
/// is asked for, each told as it is.
pub proof fn transactions_are_the_filtered_payments(
    p: ListTransactionsRequest,
    ctx: WalletContext,
    payments: Vec<PaymentDetails>,
    step: WalletStep,
    f: PaymentFilter,
    listed: Vec<PaymentDetails>,
)
    requires
        step@ == proceed(
            RequestParams::ListTransactions(p),
            ctx,
            NodeCall::ListPayments,
            NodeReply::Payments(payments),
        ),
        filters_as_asked(f, p),
        call_ensures(filter_payments, (&payments, &f, p.limit, p.offset), listed),
    ensures
        step matches WalletStep::Executed(Ok(ResponseResult::ListTransactions(list)))
            && list@.len() == listed@.len() && forall|i: int|
            0 <= i < list@.len() ==> tells_payment(#[trigger] list@[i], listed@[i]),
{
    assert(f == crate::wallet::proceed::transaction_filter(p));
    if let WalletStep::Executed(Ok(ResponseResult::ListTransactions(list))) = step {
        assert(views(list@).len() == list@.len());
        assert forall|i: int| 0 <= i < list@.len() implies tells_payment(
            #[trigger] list@[i],
            listed@[i],
        ) by {
            assert(views(list@)[i] == list@[i]@);
            lemma_tells_payment(list@[i], listed@[i]);
        }
    }
}

/// An incoming payment is listed as it is.
pub open spec fn lists_payment(told: ListedInvoice, p: PaymentDetails) -> bool {
    &&& p.status == PaymentStatus::Pending ==> told.state@ == "pending"@
    &&& p.status == PaymentStatus::Succeeded ==> told.state@ == "settled"@
    &&& p.status == PaymentStatus::Failed ==> told.state@ == "failed"@
    &&& p.amount_msat matches Some(n) ==> told.amount == n
    &&& p.amount_msat is None ==> told.amount == 0
    &&& tells_hash(told.payment_hash@, p.kind)
    &&& p.status == PaymentStatus::Succeeded ==> told.settled_at == Some(p.latest_update_timestamp)
    &&& p.status != PaymentStatus::Succeeded ==> told.settled_at is None
    &&& forall|b: [u8; 32]| #[trigger]
        has_preimage(p.kind, b) ==> (told.preimage matches Some(t) && t@ == hex_text(b@))
    &&& (forall|b: [u8; 32]| !#[trigger] has_preimage(p.kind, b)) ==> told.preimage is None
}

/// The payment has a hash, and the state that is asked for.
pub open spec fn is_in_state(state: Option<String>) -> spec_fn(PaymentDetails) -> bool {
    |p: PaymentDetails|
        {
            &&& !(p.kind is Onchain)
            &&& p.kind matches PaymentKind::Bolt12Offer { hash, .. } ==> hash is Some
            &&& p.kind matches PaymentKind::Bolt12Refund { hash, .. } ==> hash is Some
            &&& state matches Some(s) ==> match p.status {
                PaymentStatus::Pending => s@ == "pending"@,
                PaymentStatus::Succeeded => s@ == "settled"@,
                PaymentStatus::Failed => s@ == "failed"@,
            }
        }
}

/// The invoices that are listed are the node's incoming payments over Lightning
/// between the times and in the state that are asked for, paid or not, newest
/// first, on the page that is asked for.
pub proof fn invoices_are_the_incoming_payments(
    p: ListInvoicesRequest,
    ctx: WalletContext,
    payments: Vec<PaymentDetails>,
    step: WalletStep,
    incoming: Vec<PaymentDetails>,
)
    requires
        step@ == proceed(
            RequestParams::ListInvoices(p),
            ctx,
            NodeCall::ListPayments,
            NodeReply::Payments(payments),
        ),
        call_ensures(
            filter_payments,
            (
                &payments,
                &(PaymentFilter {
                    from: p.from,
                    until: p.until,
                    unpaid: Some(true),
                    direction: Some(PaymentDirection::Inbound),
                    payment_method: None,
                }),
                None,
                None,
            ),
            incoming,
        ),
    ensures
        ({
            let all = incoming@.filter(is_in_state(p.state));
            let skip = match p.offset {
                Some(n) => n as int,
                None => 0,
            };
            step matches WalletStep::Executed(Ok(ResponseResult::ListInvoices(list))) && {
                &&& skip >= all.len() ==> list@.len() == 0
                &&& skip < all.len() && p.limit is None ==> list@.len() == all.len() - skip
                &&& skip < all.len() ==> (p.limit matches Some(n) ==> list@.len() == if all.len()
                    - skip <= n {
                    all.len() - skip
                } else {
                    n as int
                })
                &&& forall|i: int|
                    0 <= i < list@.len() ==> lists_payment(#[trigger] list@[i], all[skip + i])
            }
        }),
{
    let keep = is_listed(opt_text(p.state));
    assert(keep =~= is_in_state(p.state)) by {
        assert forall|q: PaymentDetails| #[trigger] keep(q) == is_in_state(p.state)(q) by {}
    }
    let all = incoming@.filter(is_in_state(p.state));
    let skip = match p.offset {
        Some(n) => n as int,
        None => 0,
    };
    if let WalletStep::Executed(Ok(ResponseResult::ListInvoices(list))) = step {
        assert(views(list@).len() == list@.len());
        assert forall|i: int| 0 <= i < list@.len() implies lists_payment(
            #[trigger] list@[i],
            all[skip + i],
        ) by {
            assert(views(list@)[i] == list@[i]@);
            let q = all[skip + i];
            assert(list@[i]@ == listed_invoice(q));
            if let Some(b) = preimage_of_kind(q.kind) {
                assert(has_preimage(q.kind, b));
            }
            assert forall|b: [u8; 32]| #[trigger] has_preimage(q.kind, b) implies (
            list@[i].preimage matches Some(t) && t@ == hex_text(b@)) by {
                assert(preimage_of_kind(q.kind) == Some(b));
            }
        }
    }
}

/// A fresh address is told as the node gave it, and a payment on chain by the id
/// of its transaction.
pub proof fn addresses_and_transactions_are_told(
    ctx: WalletContext,
    given: String,
    fresh: WalletStep,
    onchain: crate::nip47::PayOnchainRequest,
    paid: WalletStep,
    uri: crate::nip47::PayBip321Request,
    uri_paid: WalletStep,
    send: NodeCall,
)
    requires
        fresh@ == proceed(
            RequestParams::MakeNewAddress,
            ctx,
            NodeCall::NewAddress,
            NodeReply::Text(Ok(given)),
        ),
        send is SendOnchain,
        paid@ == proceed(
            RequestParams::PayOnchain(onchain),
            ctx,
            send@,
            NodeReply::Text(Ok(given)),
        ),
        uri_paid@ == proceed(
            RequestParams::PayBip321(uri),
            ctx,
            send@,
            NodeReply::Text(Ok(given)),
        ),
    ensures
        fresh matches WalletStep::Executed(Ok(ResponseResult::MakeNewAddress { address })) && address@
            == given@,
        paid matches WalletStep::Executed(Ok(ResponseResult::PayOnchain { txid })) && txid@
            == given@,
        uri_paid matches WalletStep::Executed(Ok(ResponseResult::PayBip321(r))) && opt_text(r.txid)
            == Some(given@) && r.preimage is None && r.fees_paid is None && r.payment_method@
            == "onchain"@,
{
}

/// What the node could not do fails the request: a payment as a payment does,
/// anything else without a code of its own.
pub proof fn refused_operations_fail_the_request(
    params: RequestParams,
    ctx: WalletContext,
    call: NodeCall,
    reason: String,
    text: WalletStep,
    invoice: WalletStep,
    offer: WalletStep,
)
    requires
        text@ == proceed(params, ctx, call@, NodeReply::Text(Err(reason))),
        invoice@ == proceed(params, ctx, call@, NodeReply::Invoice(Err(reason))),
        offer@ == proceed(params, ctx, call@, NodeReply::Offer(Err(reason))),
    ensures
        (params is PayOnchain || params is PayBip321) && call is SendOnchain ==> fails_with(
            text,
            ErrorCode::PaymentFailed,
        ),
        params is MakeNewAddress && call is NewAddress ==> fails_with(text, ErrorCode::Other),
        params is MakeInvoice && call is ReceiveBolt11 ==> fails_with(invoice, ErrorCode::Other),
        params is MakeOffer && call is ReceiveOffer ==> fails_with(offer, ErrorCode::Other),
{
}

/// A new offer is told as the node made it, and remembered: active, unpaid, under
/// its own text, with what was asked for. All other offers stay as they are.
pub proof fn made_offers_are_told_and_remembered(
    p: crate::nip47::MakeOfferRequest,
    ctx: WalletContext,
    call: NodeCall,
    made: crate::lightning::node::NewOffer,
    step: WalletStep,
    before: Map<Seq<char>, OfferView>,
    other: Seq<char>,
)
    requires
        step@ == proceed(RequestParams::MakeOffer(p), ctx, call@, NodeReply::Offer(Ok(made))),
        call is ReceiveOffer,
    ensures
        step matches WalletStep::Executed(Ok(ResponseResult::MakeOffer(r))) && r.offer@
            == made.offer@ && opt_text(r.description) == Some(p.description@) && r.amount == Some(
            p.amount,
        ),
        ({
            let after = with_offer(
                before,
                new_offer(RequestParams::MakeOffer(p), call@, NodeReply::Offer(Ok(made))),
            );
            &&& after.contains_key(made.offer@)
            &&& after[made.offer@].offer == made.offer@
            &&& after[made.offer@].description == p.description@
            &&& after[made.offer@].amount_msat == p.amount
            &&& after[made.offer@].active
            &&& after[made.offer@].num_payments_received == 0
            &&& after[made.offer@].total_received_msat == 0
            &&& after[made.offer@].offer_id == made.id@
            &&& other != made.offer@ ==> after.contains_key(other) == before.contains_key(other)
            &&& other != made.offer@ && before.contains_key(other) ==> after[other] == before[other]
        }),
{
}

/// A fresh address is remembered without payments; one that is known keeps its
/// payments.
pub proof fn fresh_addresses_are_remembered(
    given: String,
    before: Map<Seq<char>, AddressView>,
    other: Seq<char>,
)
    ensures
        ({
            let after = with_address(
                before,
                new_address(
                    RequestParams::MakeNewAddress,
                    NodeCall::NewAddress,
                    NodeReply::Text(Ok(given)),
                ),
            );
            &&& after.contains_key(given@)
            &&& !before.contains_key(given@) ==> after[given@].address == given@
                && after[given@].transactions.len() == 0
            &&& before.contains_key(other) ==> after.contains_key(other) && after[other]
                == before[other]
            &&& after.contains_key(other) ==> before.contains_key(other) || other == given@
        }),
{
}

/// Nothing is remembered of an answer that brings neither an offer nor an
/// address.
pub proof fn other_answers_leave_the_records(
    params: RequestParams,
    call: NodeCall,
    reply: NodeReply,
    offers: Map<Seq<char>, OfferView>,
    addresses: Map<Seq<char>, AddressView>,
)
    ensures
        !(params is MakeOffer) || !(reply is Offer) ==> with_offer(
            offers,
            new_offer(params, call@, reply),
        ) == offers,
        !(params is MakeNewAddress) || !(reply is Text) ==> with_address(
            addresses,
            new_address(params, call@, reply),
        ) == addresses,
{
}

} // verus!
