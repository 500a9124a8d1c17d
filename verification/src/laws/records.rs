//! What is told of the offers and addresses that the service remembers.

use vstd::prelude::*;

use crate::laws::results::fails_with;
use crate::nip47::{
    DisableOfferRequest, ErrorCode, ListAddressesRequest, ListOffersRequest, LookupAddressRequest,
    LookupOfferRequest, LookupOfferResponse, RequestParams, ResponseResult,
};
#[allow(unused_imports)]
use crate::state::address_store::{lists_addresses, TransactionView};
use crate::state::address_store::AddressRecord;
#[allow(unused_imports)]
use crate::state::offer_store::{lists_offers, OfferView};
use crate::state::offer_store::OfferRecord;
use crate::state::stores::Stores;
#[allow(unused_imports)]
use crate::text::opt_text;
#[allow(unused_imports)]
use crate::views::views;
use crate::wallet::execute::WalletStep;
#[allow(unused_imports)]
use crate::wallet::records::{answers_from_records, offer_wanted, received_sum, sums_fit};

verus! {

/// An offer is told as it is remembered.
pub open spec fn tells_offer(told: LookupOfferResponse, o: OfferView) -> bool {
    &&& told.offer@ == o.offer
    &&& opt_text(told.description) == Some(o.description)
    &&& told.amount == Some(o.amount_msat)
    &&& told.active == o.active
    &&& told.num_payments_received == o.num_payments_received
    &&& told.total_received == o.total_received_msat
}

/// An offer that is remembered is told as it is; any other is not found. Looking
/// changes nothing.
pub proof fn remembered_offers_are_told(
    p: LookupOfferRequest,
    before: Stores,
    after: Stores,
    step: WalletStep,
)
    requires
        answers_from_records(RequestParams::LookupOffer(p), before, after, step@),
    ensures
        after == before,
        before.offers@.contains_key(p.offer@) ==> (step matches WalletStep::Executed(
            Ok(ResponseResult::LookupOffer(r)),
        ) && tells_offer(r, before.offers@[p.offer@])),
        !before.offers@.contains_key(p.offer@) ==> fails_with(step, ErrorCode::NotFound),
{
}

/// Disabling an offer makes it inactive and changes nothing else of it, or of the
/// others; an offer that is not remembered is not found.
pub proof fn disabling_an_offer_changes_it_only(
    p: DisableOfferRequest,
    before: Stores,
    after: Stores,
    step: WalletStep,
    other: Seq<char>,
)
    requires
        answers_from_records(RequestParams::DisableOffer(p), before, after, step@),
    ensures
        after.addresses == before.addresses && after.subscriptions == before.subscriptions
            && after.forwards == before.forwards,
        after.offers@.contains_key(other) <==> before.offers@.contains_key(other),
        other != p.offer@ && before.offers@.contains_key(other) ==> after.offers@[other]
            == before.offers@[other],
        before.offers@.contains_key(p.offer@) ==> {
            let o = before.offers@[p.offer@];
            let d = after.offers@[p.offer@];
            &&& step matches WalletStep::Executed(Ok(ResponseResult::DisableOffer))
            &&& !d.active
            &&& d.offer == o.offer && d.description == o.description && d.amount_msat
                == o.amount_msat && d.num_payments_received == o.num_payments_received
                && d.total_received_msat == o.total_received_msat && d.offer_id == o.offer_id
        },
        !before.offers@.contains_key(p.offer@) ==> fails_with(step, ErrorCode::NotFound),
{
}

/// Every offer that is listed is a remembered one, told as it is, and active if
/// only active ones are asked for. No more are listed than asked for.
pub proof fn listed_offers_are_remembered_ones(
    p: ListOffersRequest,
    before: Stores,
    after: Stores,
    step: WalletStep,
    list: Vec<LookupOfferResponse>,
    i: int,
)
    requires
        answers_from_records(RequestParams::ListOffers(p), before, after, step@),
        step == WalletStep::Executed(Ok(ResponseResult::ListOffers(list))),
        0 <= i < list@.len(),
    ensures
        after == before,
        before.offers@.contains_key(list@[i].offer@),
        tells_offer(list@[i], before.offers@[list@[i].offer@]),
        p.active_only == Some(true) ==> list@[i].active,
        p.limit matches Some(n) ==> list@.len() <= n,
{
    let all = choose|all: Seq<OfferRecord>| #[trigger]
        lists_offers(all, before.offers@) && step@ == crate::wallet::records::list_offers_step(
            all,
            p,
        );
    assert(views(list@).len() == list@.len());
    assert(views(list@)[i] == list@[i]@);
    let wanted = all.filter(offer_wanted(p.active_only));
    let cut = crate::wallet::execute::cut(wanted, p.limit, p.offset);
    let o = cut[i];
    let skip = match p.offset {
        Some(n) => n as int,
        None => 0,
    };
    assert(o == wanted[skip + i]);
    all.lemma_filter_pred(offer_wanted(p.active_only), skip + i);
    assert(wanted.contains(o));
    all.lemma_filter_contains_rev(offer_wanted(p.active_only), o);
    let j = choose|j: int| 0 <= j < all.len() && all[j] == o;
    assert(before.offers@[all[j].offer@] == all[j]@);
}

/// Every remembered offer is listed, or every active one if only those are asked
/// for, where the list is not cut.
pub proof fn all_offers_are_listed(
    p: ListOffersRequest,
    before: Stores,
    after: Stores,
    step: WalletStep,
    offer: Seq<char>,
)
    requires
        answers_from_records(RequestParams::ListOffers(p), before, after, step@),
        p.limit is None,
        p.offset is None,
        before.offers@.contains_key(offer),
        p.active_only == Some(true) ==> before.offers@[offer].active,
    ensures
        step matches WalletStep::Executed(Ok(ResponseResult::ListOffers(list))) && exists|i: int|
            0 <= i < list@.len() && (#[trigger] list@[i]).offer@ == offer,
{
    let all = choose|all: Seq<OfferRecord>| #[trigger]
        lists_offers(all, before.offers@) && step@ == crate::wallet::records::list_offers_step(
            all,
            p,
        );
    let j = choose|j: int| 0 <= j < all.len() && (#[trigger] all[j]).offer@ == offer;
    assert(before.offers@[all[j].offer@] == all[j]@);
    let keep = offer_wanted(p.active_only);
    all.lemma_filter_contains(keep, j);
    let wanted = all.filter(keep);
    let i = choose|i: int| 0 <= i < wanted.len() && wanted[i] == all[j];
    let cut = crate::wallet::execute::cut(wanted, p.limit, p.offset);
    assert(cut =~= wanted);
    if let WalletStep::Executed(Ok(ResponseResult::ListOffers(list))) = step {
        assert(views(list@).len() == list@.len());
        assert(views(list@)[i] == list@[i]@);
        assert(list@[i].offer@ == offer);
    }
}

/// What payments come to together, in satoshis.
pub open spec fn sats_received(payments: Seq<TransactionView>) -> int {
    payments.fold_left(0int, |sum: int, t: TransactionView| sum + t.amount_sats)
}

proof fn lemma_sats_received(payments: Seq<TransactionView>)
    ensures
        sats_received(payments) == received_sum(payments),
        received_sum(payments) >= 0,
    decreases payments.len(),
{
    if payments.len() > 0 {
        lemma_sats_received(payments.drop_last());
    }
}

/// An address that is remembered is told with its payments, in their order, and
/// what they come to together; any other is not found. Looking changes nothing.
pub proof fn remembered_addresses_are_told(
    p: LookupAddressRequest,
    before: Stores,
    after: Stores,
    step: WalletStep,
)
    requires
        answers_from_records(RequestParams::LookupAddress(p), before, after, step@),
    ensures
        after == before,
        before.addresses@.contains_key(p.address@) ==> {
            let known = before.addresses@[p.address@];
            sats_received(known.transactions) <= u64::MAX ==> (step matches WalletStep::Executed(
                Ok(ResponseResult::LookupAddress(r)),
            ) && r.address@ == known.address && r.total_received == sats_received(
                known.transactions,
            ) && r.transactions@.len() == known.transactions.len() && forall|i: int|
                0 <= i < known.transactions.len() ==> (#[trigger] r.transactions@[i]).txid@
                    == known.transactions[i].txid && r.transactions@[i].amount
                    == known.transactions[i].amount_sats && r.transactions@[i].timestamp
                    == known.transactions[i].timestamp)
        },
        !before.addresses@.contains_key(p.address@) ==> fails_with(step, ErrorCode::NotFound),
{
    if before.addresses@.contains_key(p.address@) {
        let known = before.addresses@[p.address@];
        lemma_sats_received(known.transactions);
        if let WalletStep::Executed(Ok(ResponseResult::LookupAddress(r))) = step {
            let told = views(r.transactions@);
            assert(told.len() == r.transactions@.len());
            assert forall|i: int| 0 <= i < known.transactions.len() implies (
            #[trigger] r.transactions@[i]).txid@ == known.transactions[i].txid
                && r.transactions@[i].amount == known.transactions[i].amount_sats
                && r.transactions@[i].timestamp == known.transactions[i].timestamp by {
                assert(told[i] == r.transactions@[i]@);
            }
        }
    }
}

/// Every address that is listed is a remembered one, with what its payments come
/// to together. No more are listed than asked for, and all are where the list is
/// not cut.
pub proof fn listed_addresses_are_remembered_ones(
    p: ListAddressesRequest,
    before: Stores,
    after: Stores,
    step: WalletStep,
    list: Vec<crate::nip47::ListedAddress>,
    i: int,
    known: Seq<char>,
)
    requires
        answers_from_records(RequestParams::ListAddresses(p), before, after, step@),
        step == WalletStep::Executed(Ok(ResponseResult::ListAddresses(list))),
    ensures
        after == before,
        0 <= i < list@.len() ==> before.addresses@.contains_key(list@[i].address@)
            && list@[i].total_received_sats == sats_received(
            before.addresses@[list@[i].address@].transactions,
        ),
        p.limit matches Some(n) ==> list@.len() <= n,
        p.limit is None && p.offset is None && before.addresses@.contains_key(known)
            ==> exists|k: int| 0 <= k < list@.len() && (#[trigger] list@[k]).address@ == known,
{
    let all = choose|all: Seq<AddressRecord>| #[trigger]
        lists_addresses(all, before.addresses@) && step@
            == crate::wallet::records::list_addresses_step(all, p);
    let cut = crate::wallet::execute::cut(all, p.limit, p.offset);
    assert(views(list@).len() == list@.len());
    assert(sums_fit(cut));
    if 0 <= i < list@.len() {
        assert(views(list@)[i] == list@[i]@);
        let skip = match p.offset {
            Some(n) => n as int,
            None => 0,
        };
        assert(cut[i] == all[skip + i]);
        assert(before.addresses@[all[skip + i].address@] == all[skip + i]@);
        lemma_sats_received(cut[i]@.transactions);
        assert(received_sum(cut[i]@.transactions) <= u64::MAX);
    }
    if p.limit is None && p.offset is None && before.addresses@.contains_key(known) {
        assert(cut =~= all);
        let k = choose|k: int| 0 <= k < all.len() && (#[trigger] all[k]).address@ == known;
        assert(views(list@)[k] == list@[k]@);
        assert(list@[k].address@ == known);
    }
}

} // verus!
