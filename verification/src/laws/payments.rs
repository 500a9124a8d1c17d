//! What is told of payments.

use vstd::prelude::*;

#[allow(unused_imports)]
use crate::lightning::hex::hex_text;
use crate::lightning::ldk_service::LdkServiceError;
#[allow(unused_imports)]
use crate::lightning::payments::{
    filter_payments, listed_payments_were_asked_for, newest_first, newest_first_sorts, of_age,
    outbound_payment, passes, payment_hash_from_kind, payment_method_from_kind,
    preimage_from_kind, wait_for_outbound_payment,
};
use crate::lightning::payments::{
    PaymentDetails, PaymentDirection, PaymentFilter, PaymentKind, PaymentMethod, PaymentStatus,
    PaymentWait,
};

verus! {

/// The kinds of payment that go by a method.
pub open spec fn goes_by(kind: PaymentKind, method: PaymentMethod) -> bool {
    match method {
        PaymentMethod::Bolt11 => kind is Bolt11 || kind is Bolt11Jit,
        PaymentMethod::Bolt12 => kind is Bolt12Offer || kind is Bolt12Refund,
        PaymentMethod::Keysend => kind is Spontaneous,
        PaymentMethod::Onchain => kind is Onchain,
    }
}

/// A payment is told with the method that its kind goes by, and with no other.
pub proof fn methods_follow_from_kinds(
    kind: PaymentKind,
    told: Option<PaymentMethod>,
    method: PaymentMethod,
)
    requires
        call_ensures(payment_method_from_kind, (&kind,), told),
    ensures
        told == Some(method) <==> goes_by(kind, method),
{
}

/// A payment over Lightning is told with its own hash and preimage, where it has
/// them; an on-chain payment has neither.
pub proof fn hashes_are_those_of_the_payment(
    kind: PaymentKind,
    hash: Option<String>,
    preimage: Option<String>,
)
    requires
        call_ensures(payment_hash_from_kind, (&kind,), hash),
        call_ensures(preimage_from_kind, (&kind,), preimage),
    ensures
        kind matches PaymentKind::Bolt11 { hash: h, preimage: p } ==> (hash matches Some(t) && t@
            == hex_text(h@)) && tells_bytes(preimage, p),
        kind matches PaymentKind::Bolt11Jit { hash: h, preimage: p } ==> (hash matches Some(t)
            && t@ == hex_text(h@)) && tells_bytes(preimage, p),
        kind matches PaymentKind::Spontaneous { hash: h, preimage: p } ==> (hash matches Some(t)
            && t@ == hex_text(h@)) && tells_bytes(preimage, p),
        kind matches PaymentKind::Bolt12Offer { hash: h, preimage: p } ==> tells_bytes(hash, h)
            && tells_bytes(preimage, p),
        kind matches PaymentKind::Bolt12Refund { hash: h, preimage: p } ==> tells_bytes(hash, h)
            && tells_bytes(preimage, p),
        kind is Onchain ==> hash is None && preimage is None,
{
}

/// Bytes are told in hexadecimal, where there are any.
pub open spec fn tells_bytes(told: Option<String>, bytes: Option<[u8; 32]>) -> bool {
    &&& told is Some <==> bytes is Some
    &&& told matches Some(t) ==> bytes matches Some(b) && t@ == hex_text(b@)
}

/// Unless unpaid payments are asked for, no pending payment is listed.
pub proof fn pending_payments_are_left_out(
    payments: Vec<PaymentDetails>,
    f: PaymentFilter,
    limit: Option<u64>,
    offset: Option<u64>,
    listed: Vec<PaymentDetails>,
    i: int,
)
    requires
        call_ensures(filter_payments, (&payments, &f, limit, offset), listed),
        f.unpaid is None || f.unpaid == Some(false),
        0 <= i < listed@.len(),
    ensures
        listed@[i].status != PaymentStatus::Pending,
{
    listed_payments_were_asked_for(payments@, f, limit, offset);
    assert(listed@.contains(listed@[i]));
}

/// Every payment that is listed is one of the node's, of the time, direction and
/// method that are asked for, and no newer than those before it.
pub proof fn listed_payments_are_as_asked(
    payments: Vec<PaymentDetails>,
    f: PaymentFilter,
    limit: Option<u64>,
    offset: Option<u64>,
    listed: Vec<PaymentDetails>,
    i: int,
    j: int,
)
    requires
        call_ensures(filter_payments, (&payments, &f, limit, offset), listed),
        0 <= j <= i < listed@.len(),
    ensures
        payments@.contains(listed@[i]),
        f.from matches Some(t) ==> listed@[i].latest_update_timestamp >= t,
        f.until matches Some(t) ==> listed@[i].latest_update_timestamp <= t,
        f.direction matches Some(d) ==> listed@[i].direction == d,
        f.payment_method matches Some(m) ==> goes_by(listed@[i].kind, m),
        listed@[j].latest_update_timestamp >= listed@[i].latest_update_timestamp,
{
    listed_payments_were_asked_for(payments@, f, limit, offset);
    assert(listed@.contains(listed@[i]));
    assert(listed@[j].latest_update_timestamp >= listed@[i].latest_update_timestamp);
}

proof fn lemma_all_are_listed(list: Seq<PaymentDetails>, p: PaymentDetails)
    requires
        list.contains(p),
    ensures
        newest_first(list).contains(p),
{
    let t = p.latest_update_timestamp;
    newest_first_sorts(list);
    let i = choose|i: int| 0 <= i < list.len() && list[i] == p;
    list.lemma_filter_contains(of_age(t), i);
    let aged = newest_first(list).filter(of_age(t));
    assert(aged.contains(p));
    newest_first(list).lemma_filter_contains_rev(of_age(t), p);
}

/// Every payment of the node that meets what is asked for is listed, where the
/// list is not cut: within the times, of the direction and the method, and not
/// pending unless unpaid ones are asked for. If they are, the status of a
/// payment does not keep it off the list.
pub proof fn payments_asked_for_are_listed(
    payments: Vec<PaymentDetails>,
    f: PaymentFilter,
    listed: Vec<PaymentDetails>,
    p: PaymentDetails,
)
    requires
        call_ensures(filter_payments, (&payments, &f, None, None), listed),
        payments@.contains(p),
        f.from matches Some(t) ==> p.latest_update_timestamp >= t,
        f.until matches Some(t) ==> p.latest_update_timestamp <= t,
        f.direction matches Some(d) ==> p.direction == d,
        f.payment_method matches Some(m) ==> goes_by(p.kind, m),
        f.unpaid == Some(true) || p.status != PaymentStatus::Pending,
    ensures
        listed@.contains(p),
{
    let pred = |q: PaymentDetails| passes(f, q);
    let i = choose|i: int| 0 <= i < payments@.len() && payments@[i] == p;
    payments@.lemma_filter_contains(pred, i);
    let kept = payments@.filter(pred);
    lemma_all_are_listed(kept, p);
    assert(listed@ =~= newest_first(kept));
}

/// A page of the list is what is left of the whole list without its first
/// `offset` payments, cut behind `limit`.
pub proof fn pages_are_cut_out_of_the_list(
    payments: Vec<PaymentDetails>,
    f: PaymentFilter,
    limit: Option<u64>,
    offset: Option<u64>,
    listed: Vec<PaymentDetails>,
    all: Vec<PaymentDetails>,
)
    requires
        call_ensures(filter_payments, (&payments, &f, limit, offset), listed),
        call_ensures(filter_payments, (&payments, &f, None, None), all),
    ensures
        ({
            let skip = match offset {
                Some(n) => n as int,
                None => 0,
            };
            &&& skip >= all@.len() ==> listed@.len() == 0
            &&& skip < all@.len() ==> {
                &&& limit is None ==> listed@.len() == all@.len() - skip
                &&& limit matches Some(n) ==> listed@.len() == if all@.len() - skip <= n {
                    all@.len() - skip
                } else {
                    n as int
                }
            }
            &&& forall|i: int| 0 <= i < listed@.len() ==> #[trigger] listed@[i] == all@[skip + i]
        }),
{
}

proof fn lemma_first_outbound(payments: Seq<PaymentDetails>, id: Seq<u8>, i: int)
    requires
        0 <= i < payments.len(),
        payments[i].id@ == id,
        payments[i].direction == PaymentDirection::Outbound,
        forall|j: int|
            0 <= j < i ==> (#[trigger] payments[j]).id@ != id || payments[j].direction
                != PaymentDirection::Outbound,
    ensures
        outbound_payment(payments, id) == Some(payments[i]),
    decreases i,
{
    if i > 0 {
        assert(payments[0].id@ != id || payments[0].direction != PaymentDirection::Outbound);
        let rest = payments.skip(1);
        assert forall|j: int| 0 <= j < i - 1 implies (#[trigger] rest[j]).id@ != id
            || rest[j].direction != PaymentDirection::Outbound by {
            assert(rest[j] == payments[j + 1]);
        }
        assert(rest[i - 1] == payments[i]);
        lemma_first_outbound(rest, id, i - 1);
    }
}

proof fn lemma_no_outbound(payments: Seq<PaymentDetails>, id: Seq<u8>)
    requires
        forall|j: int|
            0 <= j < payments.len() ==> (#[trigger] payments[j]).id@ != id || payments[j].direction
                != PaymentDirection::Outbound,
    ensures
        outbound_payment(payments, id) is None,
    decreases payments.len(),
{
    if payments.len() > 0 {
        assert(payments[0].id@ != id || payments[0].direction != PaymentDirection::Outbound);
        let rest = payments.skip(1);
        assert forall|j: int| 0 <= j < rest.len() implies (#[trigger] rest[j]).id@ != id
            || rest[j].direction != PaymentDirection::Outbound by {
            assert(rest[j] == payments[j + 1]);
        }
        lemma_no_outbound(rest, id);
    }
}

/// The preimage of a payment, whatever it was made with.
pub open spec fn has_preimage(kind: PaymentKind, bytes: [u8; 32]) -> bool {
    match kind {
        PaymentKind::Bolt11 { preimage, .. } => preimage == Some(bytes),
        PaymentKind::Bolt11Jit { preimage, .. } => preimage == Some(bytes),
        PaymentKind::Bolt12Offer { preimage, .. } => preimage == Some(bytes),
        PaymentKind::Bolt12Refund { preimage, .. } => preimage == Some(bytes),
        PaymentKind::Spontaneous { preimage, .. } => preimage == Some(bytes),
        PaymentKind::Onchain => false,
    }
}

/// The payment at place `i` is the first outgoing one with the id.
pub open spec fn is_watched(payments: Seq<PaymentDetails>, id: [u8; 32], i: int) -> bool {
    &&& 0 <= i < payments.len()
    &&& payments[i].id@ == id@
    &&& payments[i].direction == PaymentDirection::Outbound
    &&& forall|j: int|
        0 <= j < i ==> (#[trigger] payments[j]).id@ != id@ || payments[j].direction
            != PaymentDirection::Outbound
}

pub(crate) proof fn lemma_watched(payments: Seq<PaymentDetails>, id: [u8; 32], i: int)
    requires
        is_watched(payments, id, i),
    ensures
        outbound_payment(payments, id@) == Some(payments[i]),
{
    lemma_first_outbound(payments, id@, i);
}

/// The wait for an outgoing payment that succeeded gives its own preimage and
/// fee, however much time has passed.
pub proof fn successful_payments_are_told(
    payments: Vec<PaymentDetails>,
    id: [u8; 32],
    elapsed: u128,
    out: PaymentWait,
    i: int,
    preimage: [u8; 32],
)
    requires
        call_ensures(wait_for_outbound_payment, (&payments, &id, elapsed), out),
        is_watched(payments@, id, i),
        payments@[i].status == PaymentStatus::Succeeded,
        has_preimage(payments@[i].kind, preimage),
    ensures
        out matches PaymentWait::Over(Ok(r)) && r.preimage@ == hex_text(preimage@)
            && r.fees_paid_msat == payments@[i].fee_paid_msat,
{
    lemma_watched(payments@, id, i);
}

/// The wait for an outgoing payment ends in a failure where the payment failed,
/// or succeeded without a preimage.
pub proof fn failed_payments_are_told(
    payments: Vec<PaymentDetails>,
    id: [u8; 32],
    elapsed: u128,
    out: PaymentWait,
    i: int,
)
    requires
        call_ensures(wait_for_outbound_payment, (&payments, &id, elapsed), out),
        is_watched(payments@, id, i),
    ensures
        payments@[i].status == PaymentStatus::Failed ==> (out matches PaymentWait::Over(
            Err(LdkServiceError::PaymentFailed(m)),
        ) && m@ == "payment marked failed"@),
        payments@[i].status == PaymentStatus::Succeeded && (forall|b: [u8; 32]|
            !#[trigger] has_preimage(payments@[i].kind, b)) ==> (out matches PaymentWait::Over(
            Err(LdkServiceError::PaymentFailed(m)),
        ) && m@ == "payment succeeded but preimage missing"@),
{
    lemma_watched(payments@, id, i);
    let kind = payments@[i].kind;
    if let Some(b) = crate::lightning::payments::preimage_of_kind(kind) {
        assert(has_preimage(kind, b));
    }
}

/// A payment without an outcome is waited for, up to a minute.
pub proof fn payments_are_waited_for_a_minute(
    payments: Vec<PaymentDetails>,
    id: [u8; 32],
    elapsed: u128,
    out: PaymentWait,
)
    requires
        call_ensures(wait_for_outbound_payment, (&payments, &id, elapsed), out),
        (forall|j: int|
            0 <= j < payments@.len() ==> (#[trigger] payments@[j]).id@ != id@
                || payments@[j].direction != PaymentDirection::Outbound) || exists|i: int|
            #[trigger] is_watched(payments@, id, i) && payments@[i].status
                == PaymentStatus::Pending,
    ensures
        elapsed <= 60_000_000_000 ==> out is Wait,
        elapsed > 60_000_000_000 ==> (out matches PaymentWait::Over(
            Err(LdkServiceError::PaymentFailed(m)),
        ) && m@ == "timeout waiting for payment outcome"@),
{
    if forall|j: int|
        0 <= j < payments@.len() ==> (#[trigger] payments@[j]).id@ != id@ || payments@[j].direction
            != PaymentDirection::Outbound {
        lemma_no_outbound(payments@, id@);
    } else {
        let i = choose|i: int|
            #[trigger] is_watched(payments@, id, i) && payments@[i].status == PaymentStatus::Pending;
        lemma_watched(payments@, id, i);
    }
}

} // verus!
