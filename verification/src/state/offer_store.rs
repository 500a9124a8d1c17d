//! The offers that the wallet made, and what was paid to them.

use vstd::prelude::*;
use vstd::string::*;

use crate::lightning::payments::same_32;
use crate::state::text_map::TextMap;
#[allow(unused_imports)]
use crate::state::text_map::lemma_entries;

verus! {

/// An offer and its payments. Amounts are in millisatoshis.
#[derive(Debug, Clone)]
pub struct OfferRecord {
    pub offer: String,
    pub description: String,
    pub amount_msat: u64,
    pub active: bool,
    pub num_payments_received: u64,
    pub total_received_msat: u64,
    pub offer_id: [u8; 32],
}

/// What an [`OfferRecord`] holds.
pub struct OfferView {
    pub offer: Seq<char>,
    pub description: Seq<char>,
    pub amount_msat: u64,
    pub active: bool,
    pub num_payments_received: u64,
    pub total_received_msat: u64,
    pub offer_id: Seq<u8>,
}

impl View for OfferRecord {
    type V = OfferView;

    open spec fn view(&self) -> OfferView {
        OfferView {
            offer: self.offer@,
            description: self.description@,
            amount_msat: self.amount_msat,
            active: self.active,
            num_payments_received: self.num_payments_received,
            total_received_msat: self.total_received_msat,
            offer_id: self.offer_id@,
        }
    }
}

impl OfferRecord {
    /// A record with the same contents.
    pub fn copy(&self) -> (out: OfferRecord)
        ensures
            out@ == self@,
    {
        OfferRecord {
            offer: String::from_str(self.offer.as_str()),
            description: String::from_str(self.description.as_str()),
            amount_msat: self.amount_msat,
            active: self.active,
            num_payments_received: self.num_payments_received,
            total_received_msat: self.total_received_msat,
            offer_id: self.offer_id,
        }
    }
}

/// The offers of the wallet.
pub struct OfferStore {
    records: TextMap<OfferRecord>,
}

impl OfferStore {
    /// Every record stands under its own offer, and no offer has two.
    pub closed spec fn wf(&self) -> bool {
        &&& self.records.wf()
        &&& forall|o: Seq<char>| #[trigger]
            self.records@.contains_key(o) ==> self.records@[o].offer@ == o
    }

    /// A store without offers.
    pub fn new() -> (store: OfferStore)
        ensures
            store.wf(),
            store@ == Map::<Seq<char>, OfferView>::empty(),
    {
        let store: OfferStore = OfferStore { records: TextMap::new() };
        assert(store@ =~= Map::<Seq<char>, OfferView>::empty());
        store
    }
}

impl View for OfferStore {
    type V = Map<Seq<char>, OfferView>;

    /// The record of each offer.
    closed spec fn view(&self) -> Map<Seq<char>, OfferView> {
        self.records@.map_values(|r: OfferRecord| r@)
    }
}

/// Every record of a store is filed under the offer that it names.
pub proof fn offers_are_filed_by_name(store: &OfferStore, offer: Seq<char>)
    requires
        store.wf(),
        store@.contains_key(offer),
    ensures
        store@[offer].offer == offer,
{
    assert(store.records@.contains_key(offer));
}

/// `list` holds every record of `m` once, in some order.
pub open spec fn lists_offers(list: Seq<OfferRecord>, m: Map<Seq<char>, OfferView>) -> bool {
    &&& forall|i: int|
        0 <= i < list.len() ==> m.contains_key((#[trigger] list[i]).offer@) && m[list[i].offer@]
            == list[i]@
    &&& forall|i: int, j: int|
        #![trigger list[i], list[j]]
        0 <= i < j < list.len() ==> list[i].offer@ != list[j].offer@
    &&& forall|o: Seq<char>| #[trigger]
        m.contains_key(o) ==> exists|i: int|
            0 <= i < list.len() && (#[trigger] list[i]).offer@ == o
}

/// Files a new offer, active and unpaid, in place of one with the same text.
pub fn insert_offer(
    store: &mut OfferStore,
    offer: String,
    description: String,
    amount_msat: u64,
    offer_id: [u8; 32],
)
    requires
        old(store).wf(),
    ensures
        final(store).wf(),
        final(store)@ == old(store)@.insert(
            offer@,
            (OfferView {
                offer: offer@,
                description: description@,
                amount_msat,
                active: true,
                num_payments_received: 0,
                total_received_msat: 0,
                offer_id: offer_id@,
            }),
        ),
{
    let ghost before = store@;
    let record: OfferRecord = OfferRecord {
        offer: String::from_str(offer.as_str()),
        description,
        amount_msat,
        active: true,
        num_payments_received: 0,
        total_received_msat: 0,
        offer_id,
    };
    store.records.insert(offer, record);
    assert(store@ =~= before.insert(offer@, record@));
}

/// An offer with the given id. Where several have it, which of them is open.
pub fn find_by_offer_id(store: &OfferStore, offer_id: &[u8; 32]) -> (out: Option<String>)
    requires
        store.wf(),
    ensures
        match out {
            Some(o) => store@.contains_key(o@) && store@[o@].offer_id == offer_id@,
            None => forall|o: Seq<char>| #[trigger]
                store@.contains_key(o) ==> store@[o].offer_id != offer_id@,
        },
{
    let mut i: usize = 0;
    let n: usize = store.records.len();
    proof {
        lemma_entries(&store.records);
    }
    while i < n
        invariant
            store.wf(),
            n == store.records.size(),
            i <= n,
            forall|k: int|
                0 <= k < store.records.size() ==> store.records@.contains_key(
                    (#[trigger] store.records.at(k)).0,
                ) && store.records@[store.records.at(k).0] == store.records.at(k).1,
            forall|k: int|
                0 <= k < i ==> (#[trigger] store.records.at(k)).1.offer_id@ != offer_id@,
        decreases n - i,
    {
        if same_32(&store.records.value_at(i).offer_id, offer_id) {
            assert(store.records@.contains_key(store.records.at(i as int).0));
            return Some(String::from_str(store.records.key_at(i)));
        }
        i += 1;
    }
    proof {
        lemma_entries(&store.records);
        assert forall|o: Seq<char>| #[trigger]
            store@.contains_key(o) implies store@[o].offer_id != offer_id@ by {
            assert(store.records@.contains_key(o));
            let k = store.records.place(o);
            assert(store.records.at(k).0 == o);
        }
    }
    None
}

/// The record of an offer.
pub fn get_offer(store: &OfferStore, offer: &str) -> (out: Option<OfferRecord>)
    requires
        store.wf(),
    ensures
        match out {
            Some(r) => store@.contains_key(offer@) && r@ == store@[offer@],
            None => !store@.contains_key(offer@),
        },
{
    match store.records.get(offer) {
        Some(r) => Some(r.copy()),
        None => None,
    }
}

/// The records of all offers.
pub fn list_offers(store: &OfferStore) -> (out: Vec<OfferRecord>)
    requires
        store.wf(),
    ensures
        lists_offers(out@, store@),
{
    let mut out: Vec<OfferRecord> = Vec::new();
    let mut i: usize = 0;
    let n: usize = store.records.len();
    while i < n
        invariant
            store.wf(),
            n == store.records.size(),
            i <= n,
            out.len() == i,
            forall|k: int| 0 <= k < i ==> (#[trigger] out@[k])@ == store.records.at(k).1@,
        decreases n - i,
    {
        out.push(store.records.value_at(i).copy());
        i += 1;
    }
    proof {
        lemma_entries(&store.records);
        assert forall|k: int| 0 <= k < out@.len() implies (#[trigger] out@[k]).offer@
            == store.records.at(k).0 && store@.contains_key(out@[k].offer@)
            && store@[out@[k].offer@] == out@[k]@ by {
            assert(out@[k]@ == store.records.at(k).1@);
            assert(store.records@.contains_key(store.records.at(k).0));
        }
        assert forall|o: Seq<char>| #[trigger] store@.contains_key(o) implies exists|k: int|
            0 <= k < out@.len() && (#[trigger] out@[k]).offer@ == o by {
            assert(store.records@.contains_key(o));
            let k = store.records.place(o);
            assert(out@[k].offer@ == o);
        }
    }
    out
}

/// Makes an offer inactive. Returns whether the offer is known.
pub fn disable_offer(store: &mut OfferStore, offer: &str) -> (known: bool)
    requires
        old(store).wf(),
    ensures
        final(store).wf(),
        known == old(store)@.contains_key(offer@),
        final(store)@ == if known {
            old(store)@.insert(
                offer@,
                (OfferView { active: false, ..old(store)@[offer@] }),
            )
        } else {
            old(store)@
        },
{
    let ghost before = store@;
    let taken: Option<OfferRecord> = store.records.remove(offer);
    match taken {
        Some(mut record) => {
            record.active = false;
            store.records.insert(String::from_str(offer), record);
            assert(store@ =~= before.insert(offer@, record@));
            true
        },
        None => {
            assert(store@ =~= before);
            false
        },
    }
}

/// Counts a payment to an offer. One to an unknown offer is not counted.
pub fn record_payment(store: &mut OfferStore, offer: &str, amount_msat: u64)
    requires
        old(store).wf(),
        old(store)@.contains_key(offer@) ==> old(store)@[offer@].num_payments_received < u64::MAX
            && old(store)@[offer@].total_received_msat + amount_msat <= u64::MAX,
    ensures
        final(store).wf(),
        final(store)@ == if old(store)@.contains_key(offer@) {
            old(store)@.insert(
                offer@,
                (OfferView {
                    num_payments_received: (old(store)@[offer@].num_payments_received + 1) as u64,
                    total_received_msat: (old(store)@[offer@].total_received_msat
                        + amount_msat) as u64,
                    ..old(store)@[offer@]
                }),
            )
        } else {
            old(store)@
        },
{
    let ghost before = store@;
    assert(store.records@.contains_key(offer@) ==> before.contains_key(offer@));
    let taken: Option<OfferRecord> = store.records.remove(offer);
    match taken {
        Some(mut record) => {
            assert(before[offer@] == record@);
            record.num_payments_received = record.num_payments_received + 1;
            record.total_received_msat = record.total_received_msat + amount_msat;
            store.records.insert(String::from_str(offer), record);
            assert(store@ =~= before.insert(offer@, record@));
        },
        None => {
            assert(store@ =~= before);
        },
    }
}

/// Forgets every offer.
pub fn clear(store: &mut OfferStore)
    ensures
        final(store).wf(),
        final(store)@ == Map::<Seq<char>, OfferView>::empty(),
{
    store.records.clear();
    assert(store@ =~= Map::<Seq<char>, OfferView>::empty());
}

} // verus!
