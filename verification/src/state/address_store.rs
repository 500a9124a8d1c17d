//! The on-chain addresses that the wallet handed out, and what they received.

use vstd::prelude::*;
use vstd::string::*;

use crate::state::text_map::TextMap;
#[allow(unused_imports)]
use crate::state::text_map::lemma_entries;

verus! {

/// A payment to an address.
#[derive(Debug, Clone)]
pub struct AddressTransaction {
    pub txid: String,
    pub amount_sats: u64,
    pub timestamp: u64,
}

/// What an [`AddressTransaction`] holds.
pub struct TransactionView {
    pub txid: Seq<char>,
    pub amount_sats: u64,
    pub timestamp: u64,
}

impl View for AddressTransaction {
    type V = TransactionView;

    open spec fn view(&self) -> TransactionView {
        TransactionView {
            txid: self.txid@,
            amount_sats: self.amount_sats,
            timestamp: self.timestamp,
        }
    }
}

/// An address with the payments to it, oldest record first.
#[derive(Debug, Clone)]
pub struct AddressRecord {
    pub address: String,
    pub transactions: Vec<AddressTransaction>,
}

/// What an [`AddressRecord`] holds.
pub struct AddressView {
    pub address: Seq<char>,
    pub transactions: Seq<TransactionView>,
}

/// The views of a list of payments.
pub open spec fn transaction_views(s: Seq<AddressTransaction>) -> Seq<TransactionView> {
    s.map_values(|t: AddressTransaction| t@)
}

impl View for AddressRecord {
    type V = AddressView;

    open spec fn view(&self) -> AddressView {
        AddressView {
            address: self.address@,
            transactions: transaction_views(self.transactions@),
        }
    }
}

impl AddressRecord {
    /// A record with the same contents.
    pub fn copy(&self) -> (out: AddressRecord)
        ensures
            out@ == self@,
    {
        let mut transactions: Vec<AddressTransaction> = Vec::new();
        let mut i: usize = 0;
        while i < self.transactions.len()
            invariant
                i <= self.transactions.len(),
                transactions.len() == i,
                forall|k: int|
                    0 <= k < i ==> (#[trigger] transactions@[k])@ == self.transactions@[k]@,
            decreases self.transactions.len() - i,
        {
            let t: &AddressTransaction = &self.transactions[i];
            transactions.push(
                AddressTransaction {
                    txid: String::from_str(t.txid.as_str()),
                    amount_sats: t.amount_sats,
                    timestamp: t.timestamp,
                },
            );
            i += 1;
        }
        assert(transaction_views(transactions@) =~= transaction_views(self.transactions@));
        AddressRecord { address: String::from_str(self.address.as_str()), transactions }
    }
}

/// The addresses of the wallet.
pub struct AddressStore {
    records: TextMap<AddressRecord>,
}

impl AddressStore {
    /// Every record stands under its own address, and no address has two.
    pub closed spec fn wf(&self) -> bool {
        &&& self.records.wf()
        &&& forall|a: Seq<char>| #[trigger]
            self.records@.contains_key(a) ==> self.records@[a].address@ == a
    }

    /// A store without addresses.
    pub fn new() -> (store: AddressStore)
        ensures
            store.wf(),
            store@ == Map::<Seq<char>, AddressView>::empty(),
    {
        let store: AddressStore = AddressStore { records: TextMap::new() };
        assert(store@ =~= Map::<Seq<char>, AddressView>::empty());
        store
    }
}

impl View for AddressStore {
    type V = Map<Seq<char>, AddressView>;

    /// The record of each address.
    closed spec fn view(&self) -> Map<Seq<char>, AddressView> {
        self.records@.map_values(|r: AddressRecord| r@)
    }
}

/// Every record of a store is filed under the address that it names.
pub proof fn addresses_are_filed_by_name(store: &AddressStore, address: Seq<char>)
    requires
        store.wf(),
        store@.contains_key(address),
    ensures
        store@[address].address == address,
{
    assert(store.records@.contains_key(address));
}

/// `list` holds every record of `m` once, in some order.
pub open spec fn lists_addresses(
    list: Seq<AddressRecord>,
    m: Map<Seq<char>, AddressView>,
) -> bool {
    &&& forall|i: int|
        0 <= i < list.len() ==> m.contains_key((#[trigger] list[i]).address@)
            && m[list[i].address@] == list[i]@
    &&& forall|i: int, j: int|
        #![trigger list[i], list[j]]
        0 <= i < j < list.len() ==> list[i].address@ != list[j].address@
    &&& forall|a: Seq<char>| #[trigger]
        m.contains_key(a) ==> exists|i: int|
            0 <= i < list.len() && (#[trigger] list[i]).address@ == a
}

/// Files an address that is not yet known, without payments.
pub fn register_address(store: &mut AddressStore, address: String)
    requires
        old(store).wf(),
    ensures
        final(store).wf(),
        final(store)@ == if old(store)@.contains_key(address@) {
            old(store)@
        } else {
            old(store)@.insert(
                address@,
                (AddressView { address: address@, transactions: Seq::empty() }),
            )
        },
{
    let ghost before = store@;
    if store.records.get(address.as_str()).is_none() {
        let record: AddressRecord = AddressRecord {
            address: String::from_str(address.as_str()),
            transactions: Vec::new(),
        };
        assert(transaction_views(record.transactions@) =~= Seq::<TransactionView>::empty());
        store.records.insert(address, record);
        assert(store@ =~= before.insert(address@, record@));
    }
}

/// The record of an address.
pub fn get_address(store: &AddressStore, address: &str) -> (out: Option<AddressRecord>)
    requires
        store.wf(),
    ensures
        match out {
            Some(r) => store@.contains_key(address@) && r@ == store@[address@],
            None => !store@.contains_key(address@),
        },
{
    match store.records.get(address) {
        Some(r) => Some(r.copy()),
        None => None,
    }
}

/// The records of all addresses.
pub fn list_addresses(store: &AddressStore) -> (out: Vec<AddressRecord>)
    requires
        store.wf(),
    ensures
        lists_addresses(out@, store@),
{
    let mut out: Vec<AddressRecord> = Vec::new();
    let mut i: usize = 0;
    let n: usize = store.records.len();
    while i < n
        invariant
            store.wf(),
            n == store.records.size(),
            i <= n,
            out.len() == i,
            forall|k: int| 0 <= k < i ==> (#[trigger] out@[k])@ == store.records.at(k).1@,
        decreases n - i,
    {
        out.push(store.records.value_at(i).copy());
        i += 1;
    }
    proof {
        lemma_entries(&store.records);
        assert forall|k: int| 0 <= k < out@.len() implies (#[trigger] out@[k]).address@
            == store.records.at(k).0 && store@.contains_key(out@[k].address@)
            && store@[out@[k].address@] == out@[k]@ by {
            assert(out@[k]@ == store.records.at(k).1@);
            assert(store.records@.contains_key(store.records.at(k).0));
        }
        assert forall|a: Seq<char>| #[trigger] store@.contains_key(a) implies exists|k: int|
            0 <= k < out@.len() && (#[trigger] out@[k]).address@ == a by {
            assert(store.records@.contains_key(a));
            let k = store.records.place(a);
            assert(out@[k].address@ == a);
        }
    }
    out
}

/// Adds a payment to the record of an address. An unknown address gets none.
pub fn record_transaction(
    store: &mut AddressStore,
    address: &str,
    txid: String,
    amount_sats: u64,
    timestamp: u64,
)
    requires
        old(store).wf(),
    ensures
        final(store).wf(),
        final(store)@ == if old(store)@.contains_key(address@) {
            old(store)@.insert(
                address@,
                (AddressView {
                    address: address@,
                    transactions: old(store)@[address@].transactions.push(
                        (TransactionView { txid: txid@, amount_sats, timestamp }),
                    ),
                }),
            )
        } else {
            old(store)@
        },
{
    let ghost before = store@;
    let taken: Option<AddressRecord> = store.records.remove(address);
    match taken {
        Some(mut record) => {
            let ghost listed = record.transactions@;
            record.transactions.push(AddressTransaction { txid, amount_sats, timestamp });
            proof {
                assert(transaction_views(record.transactions@) =~= transaction_views(listed).push(
                    TransactionView { txid: txid@, amount_sats, timestamp },
                ));
            }
            store.records.insert(String::from_str(address), record);
            assert(store@ =~= before.insert(address@, record@));
        },
        None => {
            assert(store@ =~= before);
        },
    }
}

/// Forgets every address.
pub fn clear(store: &mut AddressStore)
    ensures
        final(store).wf(),
        final(store)@ == Map::<Seq<char>, AddressView>::empty(),
{
    store.records.clear();
    assert(store@ =~= Map::<Seq<char>, AddressView>::empty());
}

} // verus!
