//! Requests about the offers and addresses that the service remembers.

use vstd::prelude::*;

use crate::nip47::{
    wallet_error, AddressPayment, ErrorCode, ListAddressesRequest, ListOffersRequest, ListedAddress,
    LookupAddressResponse, LookupOfferResponse, NIP47Error, RequestParams, ResponseResult,
};
#[allow(unused_imports)]
use crate::nip47::ResultView;
#[allow(unused_imports)]
use crate::state::address_store::{
    lists_addresses, transaction_views, AddressView, TransactionView,
};
use crate::state::address_store::{get_address, list_addresses, AddressRecord};
#[allow(unused_imports)]
use crate::state::offer_store::{lists_offers, OfferView};
use crate::state::offer_store::{disable_offer, get_offer, list_offers, OfferRecord};
use crate::state::stores::Stores;
use crate::text::{copy_text, join};
#[allow(unused_imports)]
use crate::views::views;
use crate::wallet::execute::{cut_ends, executed, refused, WalletStep};
#[allow(unused_imports)]
use crate::wallet::execute::{cut, done, failing, StepView};

verus! {

/// What is told of an offer.
pub open spec fn offer_info(o: OfferView) -> LookupOfferResponse<Seq<char>> {
    LookupOfferResponse {
        offer: o.offer,
        description: Some(o.description),
        amount: Some(o.amount_msat),
        active: o.active,
        num_payments_received: o.num_payments_received,
        total_received: o.total_received_msat,
    }
}

fn describe_offer(o: &OfferRecord) -> (out: LookupOfferResponse)
    ensures
        out@ == offer_info(o@),
{
    LookupOfferResponse {
        offer: copy_text(o.offer.as_str()),
        description: Some(copy_text(o.description.as_str())),
        amount: Some(o.amount_msat),
        active: o.active,
        num_payments_received: o.num_payments_received,
        total_received: o.total_received_msat,
    }
}

/// The error for an unknown offer.
pub open spec fn offer_not_found(offer: Seq<char>) -> NIP47Error<Seq<char>> {
    NIP47Error { code: ErrorCode::NotFound, message: "offer not found: "@ + offer }
}

fn no_offer(offer: &str) -> (out: WalletStep)
    ensures
        out@ == failing(offer_not_found(offer@)),
{
    refused(wallet_error(ErrorCode::NotFound, join("offer not found: ", offer).as_str()))
}

/// What a search for an offer comes to.
pub open spec fn lookup_offer_step(offers: Map<Seq<char>, OfferView>, offer: Seq<char>) -> StepView {
    if offers.contains_key(offer) {
        done(ResultView::LookupOffer(offer_info(offers[offer])))
    } else {
        failing(offer_not_found(offer))
    }
}

/// The offer is among those that are asked for.
pub open spec fn offer_wanted(active_only: Option<bool>) -> spec_fn(OfferRecord) -> bool {
    |o: OfferRecord| active_only == Some(true) ==> o.active
}

/// What is told of a list of offers.
pub open spec fn offer_infos(offers: Seq<OfferRecord>) -> Seq<LookupOfferResponse<Seq<char>>> {
    offers.map_values(|o: OfferRecord| offer_info(o@))
}

/// What a list of offers comes to, where `all` are the offers in some order.
pub open spec fn list_offers_step(all: Seq<OfferRecord>, r: ListOffersRequest) -> StepView {
    done(
        ResultView::ListOffers(
            offer_infos(cut(all.filter(offer_wanted(r.active_only)), r.limit, r.offset)),
        ),
    )
}

/// The satoshis of payments.
pub open spec fn received_sum(payments: Seq<TransactionView>) -> int
    decreases payments.len(),
{
    if payments.len() == 0 {
        0
    } else {
        received_sum(payments.drop_last()) + payments.last().amount_sats
    }
}

proof fn lemma_received_sum(payments: Seq<TransactionView>, i: int)
    requires
        0 <= i <= payments.len(),
    ensures
        0 <= received_sum(payments.take(i)) <= received_sum(payments),
    decreases payments.len(),
{
    if payments.len() == 0 {
        assert(payments.take(i) =~= payments);
    } else if i == payments.len() {
        assert(payments.take(i) =~= payments);
        lemma_received_sum(payments.drop_last(), i - 1);
    } else {
        assert(payments.take(i) =~= payments.drop_last().take(i));
        lemma_received_sum(payments.drop_last(), i);
    }
}

/// The satoshis that an address received, if they fit into 64 bits.
fn total_received(r: &AddressRecord) -> (out: Option<u64>)
    ensures
        match out {
            Some(n) => n == received_sum(r@.transactions),
            None => received_sum(r@.transactions) > u64::MAX,
        },
{
    let ghost all = r@.transactions;
    let mut total: u64 = 0;
    let mut i: usize = 0;
    while i < r.transactions.len()
        invariant
            all == transaction_views(r.transactions@),
            i <= r.transactions.len(),
            total == received_sum(all.take(i as int)),
        decreases r.transactions.len() - i,
    {
        proof {
            assert(all.take(i + 1).drop_last() =~= all.take(i as int));
            assert(all.take(i + 1).last() == r.transactions@[i as int]@);
        }
        match total.checked_add(r.transactions[i].amount_sats) {
            Some(sum) => {
                total = sum;
            },
            None => {
                proof {
                    lemma_received_sum(all, i + 1);
                }
                return None;
            },
        }
        i += 1;
    }
    assert(all.take(i as int) =~= all);
    Some(total)
}

/// What is told of the payments to an address.
pub open spec fn payment_infos(payments: Seq<TransactionView>) -> Seq<AddressPayment<Seq<char>>> {
    payments.map_values(
        |t: TransactionView|
            AddressPayment { txid: t.txid, amount: t.amount_sats, timestamp: t.timestamp },
    )
}

/// The error for an unknown address.
pub open spec fn address_not_found(address: Seq<char>) -> NIP47Error<Seq<char>> {
    NIP47Error { code: ErrorCode::NotFound, message: "address not found: "@ + address }
}

/// What a search for an address comes to.
pub open spec fn lookup_address_step(
    addresses: Map<Seq<char>, AddressView>,
    address: Seq<char>,
) -> StepView {
    if !addresses.contains_key(address) {
        failing(address_not_found(address))
    } else {
        let r = addresses[address];
        if received_sum(r.transactions) > u64::MAX {
            StepView::Halt
        } else {
            done(
                ResultView::LookupAddress(
                    LookupAddressResponse {
                        address: r.address,
                        total_received: received_sum(r.transactions) as u64,
                        transactions: payment_infos(r.transactions),
                    },
                ),
            )
        }
    }
}

fn describe_payments(r: &AddressRecord) -> (out: Vec<AddressPayment>)
    ensures
        views(out@) == payment_infos(r@.transactions),
{
    let mut out: Vec<AddressPayment> = Vec::new();
    let mut i: usize = 0;
    while i < r.transactions.len()
        invariant
            i <= r.transactions.len(),
            out.len() == i,
            forall|k: int|
                0 <= k < i ==> (#[trigger] out@[k])@ == (AddressPayment {
                    txid: r.transactions@[k].txid@,
                    amount: r.transactions@[k].amount_sats,
                    timestamp: r.transactions@[k].timestamp,
                }),
        decreases r.transactions.len() - i,
    {
        out.push(
            AddressPayment {
                txid: copy_text(r.transactions[i].txid.as_str()),
                amount: r.transactions[i].amount_sats,
                timestamp: r.transactions[i].timestamp,
            },
        );
        i += 1;
    }
    assert(views(out@) =~= payment_infos(r@.transactions));
    out
}

/// The sums of all addresses fit into 64 bits.
pub open spec fn sums_fit(list: Seq<AddressRecord>) -> bool {
    forall|i: int|
        0 <= i < list.len() ==> received_sum((#[trigger] list[i])@.transactions) <= u64::MAX
}

/// What is told of a list of addresses.
pub open spec fn address_infos(list: Seq<AddressRecord>) -> Seq<ListedAddress<Seq<char>>> {
    list.map_values(
        |r: AddressRecord|
            ListedAddress {
                address: r@.address,
                total_received_sats: received_sum(r@.transactions) as u64,
            },
    )
}

/// What a list of addresses comes to, where `all` are the addresses in some
/// order.
pub open spec fn list_addresses_step(all: Seq<AddressRecord>, r: ListAddressesRequest) -> StepView {
    let listed = cut(all, r.limit, r.offset);
    if sums_fit(listed) {
        done(ResultView::ListAddresses(address_infos(listed)))
    } else {
        StepView::Halt
    }
}

fn answer_lookup_offer(stores: &Stores, offer: &str) -> (out: WalletStep)
    requires
        stores.wf(),
    ensures
        out@ == lookup_offer_step(stores.offers@, offer@),
{
    match get_offer(&stores.offers, offer) {
        Some(record) => executed(ResponseResult::LookupOffer(describe_offer(&record))),
        None => no_offer(offer),
    }
}

fn answer_list_offers(stores: &Stores, r: &ListOffersRequest) -> (out: WalletStep)
    requires
        stores.wf(),
    ensures
        exists|all: Seq<OfferRecord>| #[trigger]
            lists_offers(all, stores.offers@) && out@ == list_offers_step(all, *r),
{
    let all: Vec<OfferRecord> = list_offers(&stores.offers);
    let ghost pred = offer_wanted(r.active_only);
    let active_only: bool = match r.active_only {
        Some(b) => b,
        None => false,
    };
    let mut kept: Vec<usize> = Vec::new();
    let ghost mut chosen: Seq<OfferRecord> = Seq::empty();
    let mut i: usize = 0;
    proof {
        reveal(Seq::filter);
        assert(all@.take(0) =~= Seq::empty());
        assert(chosen =~= all@.take(0).filter(pred));
    }
    while i < all.len()
        invariant
            pred == offer_wanted(r.active_only),
            active_only == (r.active_only == Some(true)),
            i <= all.len(),
            chosen == all@.take(i as int).filter(pred),
            kept.len() == chosen.len(),
            forall|k: int|
                0 <= k < kept.len() ==> (#[trigger] kept@[k]) < all.len() && all@[kept@[k] as int]
                    == chosen[k],
        decreases all.len() - i,
    {
        proof {
            reveal(Seq::filter);
            assert(all@.take(i + 1).drop_last() =~= all@.take(i as int));
            assert(all@.take(i + 1).last() == all@[i as int]);
        }
        if !active_only || all[i].active {
            kept.push(i);
            proof {
                chosen = chosen.push(all@[i as int]);
            }
        }
        i += 1;
    }
    assert(all@.take(i as int) =~= all@);
    let (start, end) = cut_ends(kept.len(), r.limit, r.offset);
    let ghost paged = cut(chosen, r.limit, r.offset);
    let mut out: Vec<LookupOfferResponse> = Vec::new();
    let mut j: usize = start;
    while j < end
        invariant
            start <= j <= end <= kept.len(),
            kept.len() == chosen.len(),
            paged == chosen.subrange(start as int, end as int),
            forall|k: int|
                0 <= k < kept.len() ==> (#[trigger] kept@[k]) < all.len() && all@[kept@[k] as int]
                    == chosen[k],
            out.len() == j - start,
            forall|k: int| 0 <= k < j - start ==> (#[trigger] out@[k])@ == offer_info(paged[k]@),
        decreases end - j,
    {
        let place: usize = kept[j];
        assert(paged[j - start] == chosen[j as int]);
        out.push(describe_offer(&all[place]));
        j += 1;
    }
    assert(views(out@) =~= offer_infos(paged));
    assert(lists_offers(all@, stores.offers@));
    executed(ResponseResult::ListOffers(out))
}

fn answer_lookup_address(stores: &Stores, address: &str) -> (out: WalletStep)
    requires
        stores.wf(),
    ensures
        out@ == lookup_address_step(stores.addresses@, address@),
{
    match get_address(&stores.addresses, address) {
        Some(record) => match total_received(&record) {
            Some(total) => executed(
                ResponseResult::LookupAddress(
                    LookupAddressResponse {
                        address: copy_text(record.address.as_str()),
                        total_received: total,
                        transactions: describe_payments(&record),
                    },
                ),
            ),
            None => WalletStep::Halt,
        },
        None => refused(
            wallet_error(ErrorCode::NotFound, join("address not found: ", address).as_str()),
        ),
    }
}

fn answer_list_addresses(stores: &Stores, r: &ListAddressesRequest) -> (out: WalletStep)
    requires
        stores.wf(),
    ensures
        exists|all: Seq<AddressRecord>| #[trigger]
            lists_addresses(all, stores.addresses@) && out@ == list_addresses_step(all, *r),
{
    let all: Vec<AddressRecord> = list_addresses(&stores.addresses);
    let (start, end) = cut_ends(all.len(), r.limit, r.offset);
    let ghost paged = cut(all@, r.limit, r.offset);
    assert(lists_addresses(all@, stores.addresses@));
    let mut out: Vec<ListedAddress> = Vec::new();
    let mut j: usize = start;
    while j < end
        invariant
            lists_addresses(all@, stores.addresses@),
            start <= j <= end <= all.len(),
            paged == cut(all@, r.limit, r.offset),
            paged == all@.subrange(start as int, end as int),
            out.len() == j - start,
            forall|k: int|
                0 <= k < j - start ==> received_sum((#[trigger] paged[k])@.transactions)
                    <= u64::MAX && out@[k]@ == (ListedAddress {
                    address: paged[k]@.address,
                    total_received_sats: received_sum(paged[k]@.transactions) as u64,
                }),
        decreases end - j,
    {
        assert(paged[j - start] == all@[j as int]);
        match total_received(&all[j]) {
            Some(total) => {
                out.push(
                    ListedAddress {
                        address: copy_text(all[j].address.as_str()),
                        total_received_sats: total,
                    },
                );
            },
            None => {
                assert(!sums_fit(paged)) by {
                    assert(received_sum(paged[j - start]@.transactions) > u64::MAX);
                }
                return WalletStep::Halt;
            },
        }
        j += 1;
    }
    assert(sums_fit(paged));
    assert(views(out@) =~= address_infos(paged));
    executed(ResponseResult::ListAddresses(out))
}

/// The request is about the service's own records.
pub open spec fn is_about_records(params: RequestParams) -> bool {
    params is LookupOffer || params is ListOffers || params is DisableOffer
        || params is LookupAddress || params is ListAddresses
}

/// What a request about the service's own records comes to.
pub open spec fn answers_from_records(
    params: RequestParams,
    before: Stores,
    after: Stores,
    out: StepView,
) -> bool {
    match params {
        RequestParams::LookupOffer(p) => out == lookup_offer_step(before.offers@, p.offer@) && after
            == before,
        RequestParams::ListOffers(p) => after == before && exists|all: Seq<OfferRecord>| #[trigger]
            lists_offers(all, before.offers@) && out == list_offers_step(all, p),
        RequestParams::DisableOffer(p) => {
            &&& after.same_but_offers(&before)
            &&& if before.offers@.contains_key(p.offer@) {
                out == done(ResultView::DisableOffer) && after.offers@ == before.offers@.insert(
                    p.offer@,
                    OfferView { active: false, ..before.offers@[p.offer@] },
                )
            } else {
                out == failing(offer_not_found(p.offer@)) && after.offers@ == before.offers@
            }
        },
        RequestParams::LookupAddress(p) => out == lookup_address_step(
            before.addresses@,
            p.address@,
        ) && after == before,
        RequestParams::ListAddresses(p) => after == before && exists|all: Seq<AddressRecord>|
            #[trigger]
            lists_addresses(all, before.addresses@) && out == list_addresses_step(all, p),
        _ => out is Halt && after == before,
    }
}

/// Carries out a request about the service's own records.
pub fn answer_from_records(params: &RequestParams, stores: &mut Stores) -> (out: WalletStep)
    requires
        old(stores).wf(),
    ensures
        final(stores).wf(),
        answers_from_records(*params, *old(stores), *final(stores), out@),
{
    match params {
        RequestParams::LookupOffer(p) => answer_lookup_offer(stores, p.offer.as_str()),
        RequestParams::ListOffers(p) => answer_list_offers(stores, p),
        RequestParams::DisableOffer(p) => if disable_offer(&mut stores.offers, p.offer.as_str()) {
            executed(ResponseResult::DisableOffer)
        } else {
            no_offer(p.offer.as_str())
        },
        RequestParams::LookupAddress(p) => answer_lookup_address(stores, p.address.as_str()),
        RequestParams::ListAddresses(p) => answer_list_addresses(stores, p),
        _ => WalletStep::Halt,
    }
}

/// An offer that was disabled is not listed among the active ones.
pub proof fn disabled_offers_are_not_active(
    before: Stores,
    after: Stores,
    p: crate::nip47::DisableOfferRequest,
    out: StepView,
    all: Seq<OfferRecord>,
)
    requires
        answers_from_records(RequestParams::DisableOffer(p), before, after, out),
        before.offers@.contains_key(p.offer@),
        lists_offers(all, after.offers@),
    ensures
        forall|i: int|
            0 <= i < all.filter(offer_wanted(Some(true))).len() ==> (#[trigger] all.filter(
                offer_wanted(Some(true)),
            )[i]).offer@ != p.offer@,
{
    let kept = all.filter(offer_wanted(Some(true)));
    assert forall|i: int| 0 <= i < kept.len() implies (#[trigger] kept[i]).offer@
        != p.offer@ by {
        all.lemma_filter_contains_rev(offer_wanted(Some(true)), kept[i]);
        all.lemma_filter_pred(offer_wanted(Some(true)), i);
        let j = choose|j: int| 0 <= j < all.len() && all[j] == kept[i];
        assert(after.offers@[all[j].offer@] == all[j]@);
    }
}

} // verus!
