//! All that the service remembers.

use vstd::prelude::*;

use crate::state::address_store::AddressStore;
use crate::state::forwarding_store::ForwardingStore;
use crate::state::offer_store::OfferStore;
use crate::state::subscription_store::SubscriptionStore;

verus! {

/// The stores of the service.
pub struct Stores {
    pub offers: OfferStore,
    pub addresses: AddressStore,
    pub subscriptions: SubscriptionStore,
    pub forwards: ForwardingStore,
}

impl Stores {
    /// Every store is in order.
    pub open spec fn wf(&self) -> bool {
        self.offers.wf() && self.addresses.wf() && self.subscriptions.wf()
    }

    /// The other stores are as they were.
    pub open spec fn same_but_offers(&self, other: &Stores) -> bool {
        self.addresses == other.addresses && self.subscriptions == other.subscriptions
            && self.forwards == other.forwards
    }

    /// The other stores are as they were.
    pub open spec fn same_but_subscriptions(&self, other: &Stores) -> bool {
        self.offers == other.offers && self.addresses == other.addresses && self.forwards
            == other.forwards
    }

    /// Empty stores.
    pub fn new() -> (out: Stores)
        ensures
            out.wf(),
            out.offers@ == Map::<Seq<char>, crate::state::offer_store::OfferView>::empty(),
            out.addresses@ == Map::<Seq<char>, crate::state::address_store::AddressView>::empty(),
            out.subscriptions@ == Map::<Seq<char>, Set<Seq<char>>>::empty(),
            out.forwards@ == Seq::<crate::state::forwarding_store::ForwardingView>::empty(),
    {
        Stores {
            offers: OfferStore::new(),
            addresses: AddressStore::new(),
            subscriptions: SubscriptionStore::new(),
            forwards: ForwardingStore::new(),
        }
    }
}

} // verus!
