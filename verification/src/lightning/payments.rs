//! The payments that the node knows of.

use vstd::prelude::*;

#[allow(unused_imports)]
use crate::lightning::hex::hex_text;
use crate::lightning::hex::hex_string;
use crate::lightning::ldk_service::{LdkPaymentResult, LdkServiceError};
#[allow(unused_imports)]
use crate::state::page::{page, page_start};
use crate::text::copy_text;
#[allow(unused_imports)]
use crate::text::opt_text;
#[allow(unused_imports)]
use crate::views::result_view;

verus! {

/// Whether a payment comes in or goes out.
#[derive(Debug, Clone, Copy, PartialEq, Eq, Structural)]
pub enum PaymentDirection {
    Inbound,
    Outbound,
}

/// How far a payment has come.
#[derive(Debug, Clone, Copy, PartialEq, Eq, Structural)]
pub enum PaymentStatus {
    Pending,
    Succeeded,
    Failed,
}

/// What a payment was made with.
#[allow(inconsistent_fields)]
#[derive(Debug, Clone, Copy)]
pub enum PaymentKind {
    Onchain,
    Bolt11 { hash: [u8; 32], preimage: Option<[u8; 32]> },
    Bolt11Jit { hash: [u8; 32], preimage: Option<[u8; 32]> },
    Bolt12Offer { hash: Option<[u8; 32]>, preimage: Option<[u8; 32]> },
    Bolt12Refund { hash: Option<[u8; 32]>, preimage: Option<[u8; 32]> },
    Spontaneous { hash: [u8; 32], preimage: Option<[u8; 32]> },
}

/// A payment. The time of its last change is in seconds since the epoch.
#[derive(Debug, Clone, Copy)]
pub struct PaymentDetails {
    pub id: [u8; 32],
    pub kind: PaymentKind,
    pub amount_msat: Option<u64>,
    pub fee_paid_msat: Option<u64>,
    pub direction: PaymentDirection,
    pub status: PaymentStatus,
    pub latest_update_timestamp: u64,
}

/// The ways to pay that a client can ask for.
#[derive(Debug, Clone, Copy, PartialEq, Eq, Structural)]
pub enum PaymentMethod {
    Bolt11,
    Bolt12,
    Onchain,
    Keysend,
}

/// The way to pay that a kind of payment belongs to. Every kind has one.
pub open spec fn method_of_kind(kind: PaymentKind) -> Option<PaymentMethod> {
    match kind {
        PaymentKind::Bolt11 { .. } => Some(PaymentMethod::Bolt11),
        PaymentKind::Bolt11Jit { .. } => Some(PaymentMethod::Bolt11),
        PaymentKind::Bolt12Offer { .. } => Some(PaymentMethod::Bolt12),
        PaymentKind::Bolt12Refund { .. } => Some(PaymentMethod::Bolt12),
        PaymentKind::Spontaneous { .. } => Some(PaymentMethod::Keysend),
        PaymentKind::Onchain => Some(PaymentMethod::Onchain),
    }
}

/// The way to pay that a kind of payment belongs to.
pub fn payment_method_from_kind(kind: &PaymentKind) -> (out: Option<PaymentMethod>)
    ensures
        out == method_of_kind(*kind),
{
    match kind {
        PaymentKind::Bolt11 { .. } => Some(PaymentMethod::Bolt11),
        PaymentKind::Bolt11Jit { .. } => Some(PaymentMethod::Bolt11),
        PaymentKind::Bolt12Offer { .. } => Some(PaymentMethod::Bolt12),
        PaymentKind::Bolt12Refund { .. } => Some(PaymentMethod::Bolt12),
        PaymentKind::Spontaneous { .. } => Some(PaymentMethod::Keysend),
        PaymentKind::Onchain => Some(PaymentMethod::Onchain),
    }
}

/// The hash of a payment, if it has one.
pub open spec fn hash_of_kind(kind: PaymentKind) -> Option<[u8; 32]> {
    match kind {
        PaymentKind::Bolt11 { hash, .. } => Some(hash),
        PaymentKind::Bolt11Jit { hash, .. } => Some(hash),
        PaymentKind::Bolt12Offer { hash, .. } => hash,
        PaymentKind::Bolt12Refund { hash, .. } => hash,
        PaymentKind::Spontaneous { hash, .. } => Some(hash),
        PaymentKind::Onchain => None,
    }
}

/// The preimage of a payment, if it is known.
pub open spec fn preimage_of_kind(kind: PaymentKind) -> Option<[u8; 32]> {
    match kind {
        PaymentKind::Bolt11 { preimage, .. } => preimage,
        PaymentKind::Bolt11Jit { preimage, .. } => preimage,
        PaymentKind::Bolt12Offer { preimage, .. } => preimage,
        PaymentKind::Bolt12Refund { preimage, .. } => preimage,
        PaymentKind::Spontaneous { preimage, .. } => preimage,
        PaymentKind::Onchain => None,
    }
}

/// Bytes in hexadecimal, if there are any.
pub open spec fn opt_hex(bytes: Option<[u8; 32]>) -> Option<Seq<char>> {
    match bytes {
        Some(b) => Some(hex_text(b@)),
        None => None,
    }
}

fn hex_if_any(bytes: Option<[u8; 32]>) -> (out: Option<String>)
    ensures
        opt_text(out) == opt_hex(bytes),
{
    match bytes {
        Some(b) => Some(hex_string(b.as_slice())),
        None => None,
    }
}

/// The hash of a payment in hexadecimal, if it has one.
pub fn payment_hash_from_kind(kind: &PaymentKind) -> (out: Option<String>)
    ensures
        opt_text(out) == opt_hex(hash_of_kind(*kind)),
{
    let hash: Option<[u8; 32]> = match *kind {
        PaymentKind::Bolt11 { hash, .. } => Some(hash),
        PaymentKind::Bolt11Jit { hash, .. } => Some(hash),
        PaymentKind::Bolt12Offer { hash, .. } => hash,
        PaymentKind::Bolt12Refund { hash, .. } => hash,
        PaymentKind::Spontaneous { hash, .. } => Some(hash),
        PaymentKind::Onchain => None,
    };
    hex_if_any(hash)
}

/// The preimage of a payment in hexadecimal, if it is known.
pub fn preimage_from_kind(kind: &PaymentKind) -> (out: Option<String>)
    ensures
        opt_text(out) == opt_hex(preimage_of_kind(*kind)),
{
    let preimage: Option<[u8; 32]> = match *kind {
        PaymentKind::Bolt11 { preimage, .. } => preimage,
        PaymentKind::Bolt11Jit { preimage, .. } => preimage,
        PaymentKind::Bolt12Offer { preimage, .. } => preimage,
        PaymentKind::Bolt12Refund { preimage, .. } => preimage,
        PaymentKind::Spontaneous { preimage, .. } => preimage,
        PaymentKind::Onchain => None,
    };
    hex_if_any(preimage)
}

/// Which payments a client asks for.
#[derive(Debug, Clone, Copy)]
pub struct PaymentFilter {
    pub from: Option<u64>,
    pub until: Option<u64>,
    pub unpaid: Option<bool>,
    pub direction: Option<PaymentDirection>,
    pub payment_method: Option<PaymentMethod>,
}

/// The payment is among those that the filter asks for. Pending payments are
/// so only if unpaid ones are asked for.
pub open spec fn passes(f: PaymentFilter, p: PaymentDetails) -> bool {
    &&& f.from matches Some(t) ==> p.latest_update_timestamp >= t
    &&& f.until matches Some(t) ==> p.latest_update_timestamp <= t
    &&& f.direction matches Some(d) ==> p.direction == d
    &&& f.payment_method matches Some(m) ==> method_of_kind(p.kind) == Some(m)
    &&& f.unpaid == Some(true) || p.status != PaymentStatus::Pending
}

fn check_filter(f: &PaymentFilter, p: &PaymentDetails) -> (out: bool)
    ensures
        out == passes(*f, *p),
{
    if let Some(t) = f.from {
        if p.latest_update_timestamp < t {
            return false;
        }
    }
    if let Some(t) = f.until {
        if p.latest_update_timestamp > t {
            return false;
        }
    }
    if let Some(d) = f.direction {
        if p.direction != d {
            return false;
        }
    }
    if let Some(m) = f.payment_method {
        match payment_method_from_kind(&p.kind) {
            Some(own) => {
                if own != m {
                    return false;
                }
            },
            None => {
                return false;
            },
        }
    }
    let include_unpaid: bool = match f.unpaid {
        Some(b) => b,
        None => false,
    };
    include_unpaid || p.status != PaymentStatus::Pending
}

/// Where a payment goes in a list that is newest first: behind all that are no
/// older.
pub open spec fn newest_place(list: Seq<PaymentDetails>, timestamp: u64) -> int
    decreases list.len(),
{
    if list.len() == 0 {
        0
    } else if list.last().latest_update_timestamp >= timestamp {
        list.len() as int
    } else {
        newest_place(list.drop_last(), timestamp)
    }
}

/// The payments, newest first. Those of the same age keep their order.
pub open spec fn newest_first(list: Seq<PaymentDetails>) -> Seq<PaymentDetails>
    decreases list.len(),
{
    if list.len() == 0 {
        Seq::empty()
    } else {
        let sorted = newest_first(list.drop_last());
        sorted.insert(newest_place(sorted, list.last().latest_update_timestamp), list.last())
    }
}

/// No payment in the list is newer than one before it.
pub open spec fn is_newest_first(list: Seq<PaymentDetails>) -> bool {
    forall|i: int, j: int|
        #![trigger list[i], list[j]]
        0 <= i <= j < list.len() ==> list[i].latest_update_timestamp
            >= list[j].latest_update_timestamp
}

proof fn lemma_newest_place(list: Seq<PaymentDetails>, timestamp: u64)
    ensures
        0 <= newest_place(list, timestamp) <= list.len(),
        forall|i: int|
            newest_place(list, timestamp) <= i < list.len() ==> (
            #[trigger] list[i]).latest_update_timestamp < timestamp,
        newest_place(list, timestamp) > 0 ==> list[newest_place(list, timestamp)
            - 1].latest_update_timestamp >= timestamp,
    decreases list.len(),
{
    if list.len() > 0 && list.last().latest_update_timestamp < timestamp {
        lemma_newest_place(list.drop_last(), timestamp);
        assert forall|i: int|
            newest_place(list, timestamp) <= i < list.len() implies (
        #[trigger] list[i]).latest_update_timestamp < timestamp by {
            if i < list.len() - 1 {
                assert(list.drop_last()[i] == list[i]);
            }
        }
    }
}

/// The payments of a given age.
pub open spec fn of_age(timestamp: u64) -> spec_fn(PaymentDetails) -> bool {
    |p: PaymentDetails| p.latest_update_timestamp == timestamp
}

proof fn lemma_filter_push<T>(s: Seq<T>, x: T, pred: spec_fn(T) -> bool)
    ensures
        s.push(x).filter(pred) == if pred(x) {
            s.filter(pred).push(x)
        } else {
            s.filter(pred)
        },
{
    reveal(Seq::filter);
    assert(s.push(x).drop_last() =~= s);
}

proof fn lemma_filter_none<T>(s: Seq<T>, pred: spec_fn(T) -> bool)
    requires
        forall|i: int| 0 <= i < s.len() ==> !pred(#[trigger] s[i]),
    ensures
        s.filter(pred) == Seq::<T>::empty(),
    decreases s.len(),
{
    reveal(Seq::filter);
    if s.len() > 0 {
        assert(!pred(s[s.len() - 1]));
        assert forall|i: int| 0 <= i < s.drop_last().len() implies !pred(
            #[trigger] s.drop_last()[i],
        ) by {
            assert(s.drop_last()[i] == s[i]);
        }
        lemma_filter_none(s.drop_last(), pred);
    }
}

proof fn lemma_filter_join<T>(a: Seq<T>, b: Seq<T>, pred: spec_fn(T) -> bool)
    ensures
        (a + b).filter(pred) == a.filter(pred) + b.filter(pred),
    decreases b.len(),
{
    if b.len() == 0 {
        lemma_filter_none(b, pred);
        assert(a + b =~= a);
        assert(a.filter(pred) + b.filter(pred) =~= a.filter(pred));
    } else {
        lemma_filter_join(a, b.drop_last(), pred);
        lemma_filter_push(a + b.drop_last(), b.last(), pred);
        lemma_filter_push(b.drop_last(), b.last(), pred);
        assert((a + b.drop_last()).push(b.last()) =~= a + b);
        assert(b.drop_last().push(b.last()) =~= b);
        assert((a + b).filter(pred) =~= a.filter(pred) + b.filter(pred));
    }
}

/// Sorting puts the payments in order, newest first, and keeps those of each
/// age, all of them and in their order.
pub proof fn newest_first_sorts(list: Seq<PaymentDetails>)
    ensures
        is_newest_first(newest_first(list)),
        newest_first(list).len() == list.len(),
        forall|t: u64| #[trigger]
            newest_first(list).filter(of_age(t)) == list.filter(of_age(t)),
    decreases list.len(),
{
    if list.len() == 0 {
        assert(newest_first(list) =~= list);
    } else {
        let front = list.drop_last();
        let x = list.last();
        newest_first_sorts(front);
        let sorted = newest_first(front);
        let k = newest_place(sorted, x.latest_update_timestamp);
        lemma_newest_place(sorted, x.latest_update_timestamp);
        let out = sorted.insert(k, x);
        assert(out =~= sorted.take(k).push(x) + sorted.skip(k));
        assert forall|i: int, j: int|
            #![trigger out[i], out[j]]
            0 <= i <= j < out.len() implies out[i].latest_update_timestamp
            >= out[j].latest_update_timestamp by {
            let a = if i <= k {
                i
            } else {
                i - 1
            };
            let b = if j <= k {
                j
            } else {
                j - 1
            };
            if i != k && j != k {
                assert(sorted[a].latest_update_timestamp >= sorted[b].latest_update_timestamp);
            } else if i < k && j == k {
                assert(sorted[i].latest_update_timestamp >= sorted[k - 1].latest_update_timestamp);
            }
        }
        assert forall|t: u64| #[trigger] out.filter(of_age(t)) == list.filter(of_age(t)) by {
            let pred = of_age(t);
            lemma_filter_join(sorted.take(k).push(x), sorted.skip(k), pred);
            lemma_filter_join(sorted.take(k), sorted.skip(k), pred);
            lemma_filter_push(sorted.take(k), x, pred);
            lemma_filter_push(front, x, pred);
            assert(front.push(x) =~= list);
            assert(sorted.take(k) + sorted.skip(k) =~= sorted);
            assert(sorted.filter(pred) == front.filter(pred));
            if pred(x) {
                assert forall|i: int| 0 <= i < sorted.skip(k).len() implies !pred(
                    #[trigger] sorted.skip(k)[i],
                ) by {
                    assert(sorted.skip(k)[i] == sorted[k + i]);
                }
                lemma_filter_none(sorted.skip(k), pred);
                assert(sorted.take(k).filter(pred) =~= sorted.filter(pred));
                assert(out.filter(pred) =~= list.filter(pred));
            } else {
                assert(out.filter(pred) =~= list.filter(pred));
            }
        }
    }
}

/// The number of elements that a page takes at most.
pub open spec fn page_limit(limit: Option<u64>, len: int) -> int {
    match limit {
        Some(n) => n as int,
        None => len,
    }
}

/// The payments that a filter asks for, newest first, without the first
/// `offset` of them, and at most `limit`.
pub open spec fn filtered_payments(
    payments: Seq<PaymentDetails>,
    f: PaymentFilter,
    limit: Option<u64>,
    offset: Option<u64>,
) -> Seq<PaymentDetails> {
    let all = newest_first(payments.filter(|p: PaymentDetails| passes(f, p)));
    let skipped = match offset {
        Some(n) => n as int,
        None => 0int,
    };
    page(all, skipped, page_limit(limit, all.len() as int))
}

/// The payments that a filter asks for, newest first, without the first
/// `offset` of them, and at most `limit`.
pub fn filter_payments(
    payments: &Vec<PaymentDetails>,
    f: &PaymentFilter,
    limit: Option<u64>,
    offset: Option<u64>,
) -> (out: Vec<PaymentDetails>)
    ensures
        out@ == filtered_payments(payments@, *f, limit, offset),
{
    let ghost pred = |p: PaymentDetails| passes(*f, p);
    let mut sorted: Vec<PaymentDetails> = Vec::new();
    let mut i: usize = 0;
    proof {
        assert(payments@.take(0) =~= Seq::empty());
        lemma_filter_none(payments@.take(0), pred);
    }
    while i < payments.len()
        invariant
            pred == (|p: PaymentDetails| passes(*f, p)),
            i <= payments.len(),
            sorted@ == newest_first(payments@.take(i as int).filter(pred)),
            sorted.len() <= i,
        decreases payments.len() - i,
    {
        let p: PaymentDetails = payments[i];
        proof {
            assert(payments@.take(i + 1) =~= payments@.take(i as int).push(p));
            lemma_filter_push(payments@.take(i as int), p, pred);
        }
        if check_filter(f, &p) {
            let ghost kept = payments@.take(i as int).filter(pred);
            let mut k: usize = sorted.len();
            assert(sorted@.take(k as int) =~= sorted@);
            while k > 0 && sorted[k - 1].latest_update_timestamp < p.latest_update_timestamp
                invariant
                    k <= sorted.len(),
                    newest_place(sorted@, p.latest_update_timestamp) == newest_place(
                        sorted@.take(k as int),
                        p.latest_update_timestamp,
                    ),
                decreases k,
            {
                assert(sorted@.take(k as int).drop_last() =~= sorted@.take(k - 1));
                assert(sorted@.take(k as int).last() == sorted@[k - 1]);
                k -= 1;
            }
            proof {
                assert(k > 0 ==> sorted@.take(k as int).last() == sorted@[k - 1]);
                assert(k == newest_place(sorted@, p.latest_update_timestamp));
                assert(kept.push(p).drop_last() =~= kept);
                assert(kept.push(p).last() == p);
            }
            sorted.insert(k, p);
        }
        i += 1;
    }
    assert(payments@.take(i as int) =~= payments@);
    let n: usize = sorted.len();
    let start: usize = match offset {
        Some(o) => if o < n as u64 {
            o as usize
        } else {
            n
        },
        None => 0,
    };
    let end: usize = match limit {
        Some(l) => if l < (n - start) as u64 {
            start + l as usize
        } else {
            n
        },
        None => n,
    };
    let mut out: Vec<PaymentDetails> = Vec::new();
    let mut j: usize = start;
    while j < end
        invariant
            start <= j <= end <= sorted.len(),
            out@ == sorted@.subrange(start as int, j as int),
        decreases end - j,
    {
        out.push(sorted[j]);
        assert(out@ =~= sorted@.subrange(start as int, j + 1));
        j += 1;
    }
    out
}

/// How the wait for an outgoing payment stands.
#[derive(Debug)]
pub enum PaymentWait {
    /// The payment has an outcome, or the time is up.
    Over(Result<LdkPaymentResult, LdkServiceError>),
    /// The payment is still under way.
    Wait,
}

/// The time that an outgoing payment may take, in nanoseconds: a minute.
pub const PAYMENT_TIMEOUT_NANOS: u128 = 60_000_000_000;

/// The payment is the outgoing one with the given id.
pub open spec fn is_outbound(p: PaymentDetails, id: Seq<u8>) -> bool {
    p.id@ == id && p.direction == PaymentDirection::Outbound
}

/// The first outgoing payment with the given id.
pub open spec fn outbound_payment(
    payments: Seq<PaymentDetails>,
    id: Seq<u8>,
) -> Option<PaymentDetails>
    decreases payments.len(),
{
    if payments.len() == 0 {
        None
    } else if is_outbound(payments[0], id) {
        Some(payments[0])
    } else {
        outbound_payment(payments.skip(1), id)
    }
}

/// The outcome of a payment, if it has one.
pub open spec fn payment_outcome(p: PaymentDetails) -> Option<
    Result<LdkPaymentResult<Seq<char>>, LdkServiceError<Seq<char>>>,
> {
    match p.status {
        PaymentStatus::Succeeded => Some(
            match preimage_of_kind(p.kind) {
                Some(preimage) => Ok(
                    LdkPaymentResult {
                        preimage: hex_text(preimage@),
                        fees_paid_msat: p.fee_paid_msat,
                    },
                ),
                None => Err(
                    LdkServiceError::PaymentFailed("payment succeeded but preimage missing"@),
                ),
            },
        ),
        PaymentStatus::Failed => Some(
            Err(LdkServiceError::PaymentFailed("payment marked failed"@)),
        ),
        PaymentStatus::Pending => None,
    }
}

/// What the wait for a payment comes to: its outcome if there is one, an error
/// if the time is up, or nothing yet.
pub open spec fn wait_outcome(payments: Seq<PaymentDetails>, id: Seq<u8>, elapsed: u128) -> Option<
    Result<LdkPaymentResult<Seq<char>>, LdkServiceError<Seq<char>>>,
> {
    let outcome = match outbound_payment(payments, id) {
        Some(p) => payment_outcome(p),
        None => None,
    };
    if outcome is Some {
        outcome
    } else if elapsed > PAYMENT_TIMEOUT_NANOS {
        Some(Err(LdkServiceError::PaymentFailed("timeout waiting for payment outcome"@)))
    } else {
        None
    }
}

/// Whether two strings of bytes are the same.
pub fn same_32(a: &[u8; 32], b: &[u8; 32]) -> (same: bool)
    ensures
        same == (a@ == b@),
{
    let mut i: usize = 0;
    while i < 32
        invariant
            i <= 32,
            forall|k: int| 0 <= k < i ==> a@[k] == b@[k],
        decreases 32 - i,
    {
        if a[i] != b[i] {
            return false;
        }
        i += 1;
    }
    assert(a@ =~= b@);
    true
}

fn find_outbound(payments: &Vec<PaymentDetails>, id: &[u8; 32]) -> (out: Option<PaymentDetails>)
    ensures
        out == outbound_payment(payments@, id@),
{
    let mut i: usize = 0;
    assert(payments@.skip(0) =~= payments@);
    while i < payments.len()
        invariant
            i <= payments.len(),
            outbound_payment(payments@, id@) == outbound_payment(payments@.skip(i as int), id@),
        decreases payments.len() - i,
    {
        let p: PaymentDetails = payments[i];
        assert(payments@.skip(i as int)[0] == p);
        assert(payments@.skip(i as int).skip(1) =~= payments@.skip(i + 1));
        if same_32(&p.id, id) && p.direction == PaymentDirection::Outbound {
            return Some(p);
        }
        i += 1;
    }
    None
}

/// Looks for the outcome of an outgoing payment among the node's payments,
/// `elapsed` nanoseconds after it was sent.
pub fn wait_for_outbound_payment(
    payments: &Vec<PaymentDetails>,
    id: &[u8; 32],
    elapsed: u128,
) -> (out: PaymentWait)
    ensures
        match out {
            PaymentWait::Over(r) => wait_outcome(payments@, id@, elapsed) == Some(
                result_view(r),
            ),
            PaymentWait::Wait => wait_outcome(payments@, id@, elapsed) is None,
        },
{
    if let Some(payment) = find_outbound(payments, id) {
        match payment.status {
            PaymentStatus::Succeeded => {
                return match preimage_from_kind(&payment.kind) {
                    Some(preimage) => PaymentWait::Over(
                        Ok(
                            LdkPaymentResult { preimage, fees_paid_msat: payment.fee_paid_msat },
                        ),
                    ),
                    None => PaymentWait::Over(
                        Err(
                            LdkServiceError::PaymentFailed(
                                copy_text("payment succeeded but preimage missing"),
                            ),
                        ),
                    ),
                };
            },
            PaymentStatus::Failed => {
                return PaymentWait::Over(
                    Err(LdkServiceError::PaymentFailed(copy_text("payment marked failed"))),
                );
            },
            PaymentStatus::Pending => {},
        }
    }
    if elapsed > PAYMENT_TIMEOUT_NANOS {
        return PaymentWait::Over(
            Err(
                LdkServiceError::PaymentFailed(copy_text("timeout waiting for payment outcome")),
            ),
        );
    }
    PaymentWait::Wait
}

proof fn lemma_newest_first_keeps(list: Seq<PaymentDetails>, p: PaymentDetails)
    requires
        newest_first(list).contains(p),
    ensures
        list.contains(p),
    decreases list.len(),
{
    if list.len() > 0 {
        let sorted = newest_first(list.drop_last());
        let x = list.last();
        let k = newest_place(sorted, x.latest_update_timestamp);
        lemma_newest_place(sorted, x.latest_update_timestamp);
        let i = choose|i: int| 0 <= i < newest_first(list).len() && newest_first(list)[i] == p;
        if i == k {
            assert(list[list.len() - 1] == p);
        } else {
            let j = if i < k {
                i
            } else {
                i - 1
            };
            assert(sorted[j] == p);
            lemma_newest_first_keeps(list.drop_last(), p);
            let m = choose|m: int| 0 <= m < list.len() - 1 && list.drop_last()[m] == p;
            assert(list[m] == p);
        }
    }
}

/// Every payment in a list is one of the node's that the filter asks for, and
/// none is newer than one before it.
pub proof fn listed_payments_were_asked_for(
    payments: Seq<PaymentDetails>,
    f: PaymentFilter,
    limit: Option<u64>,
    offset: Option<u64>,
)
    ensures
        is_newest_first(filtered_payments(payments, f, limit, offset)),
        forall|p: PaymentDetails| #[trigger]
            filtered_payments(payments, f, limit, offset).contains(p) ==> payments.contains(p)
                && passes(f, p),
{
    let pred = |p: PaymentDetails| passes(f, p);
    let kept = payments.filter(pred);
    let all = newest_first(kept);
    let out = filtered_payments(payments, f, limit, offset);
    newest_first_sorts(kept);
    let start = page_start(
        all.len() as int,
        match offset {
            Some(n) => n as int,
            None => 0int,
        },
    );
    assert forall|i: int| 0 <= i < out.len() implies #[trigger] out[i] == all[start + i] by {}
    assert forall|p: PaymentDetails| #[trigger] out.contains(p) implies payments.contains(p)
        && passes(f, p) by {
        let i = choose|i: int| 0 <= i < out.len() && out[i] == p;
        assert(all[start + i] == p);
        lemma_newest_first_keeps(kept, p);
        let k = choose|k: int| 0 <= k < kept.len() && kept[k] == p;
        payments.lemma_filter_pred(pred, k);
        payments.lemma_filter_contains_rev(pred, p);
    }
    assert forall|i: int, j: int|
        #![trigger out[i], out[j]]
        0 <= i <= j < out.len() implies out[i].latest_update_timestamp
        >= out[j].latest_update_timestamp by {
        assert(out[i] == all[start + i]);
        assert(out[j] == all[start + j]);
    }
}

} // verus!
