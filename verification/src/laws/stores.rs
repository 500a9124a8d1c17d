//! What the stores give back of what was put into them.

use vstd::prelude::*;

use crate::access::UsageProfile;
use crate::nip47::Method;
#[allow(unused_imports)]
use crate::relay::grants::{get_usage_profile, key_bytes, parse_grant_target};
use crate::relay::grants::{GrantOutcome, Grants};
use crate::settings::ServiceSettings;
#[allow(unused_imports)]
use crate::settings::{set_owners, set_relay_pubkey};
#[allow(unused_imports)]
use crate::state::address_store;
use crate::state::address_store::{AddressRecord, AddressStore};
#[allow(unused_imports)]
use crate::state::address_store::{
    get_address, record_transaction, register_address, transaction_views,
};
#[allow(unused_imports)]
use crate::state::offer_store;
#[allow(unused_imports)]
use crate::state::offer_store::{
    disable_offer, get_offer, insert_offer, record_payment,
};
use crate::state::offer_store::{OfferRecord, OfferStore};
#[allow(unused_imports)]
use crate::state::subscription_store;
use crate::state::subscription_store::SubscriptionStore;
#[allow(unused_imports)]
use crate::state::subscription_store::{is_subscribed, subscribe, unsubscribe};
#[allow(unused_imports)]
use crate::text::{opt_str, opt_text, text_less, texts};
use crate::wallet::request::ForcedFailures;
#[allow(unused_imports)]
use crate::wallet::request::{
    clear_execute_failures_for_testing, set_execute_failure_for_testing,
    should_force_execute_failure,
};

verus! {

/// A client that subscribes is told of the types that it names and of no others.
/// What the other clients are told of stays as it was.
pub proof fn subscribed_types_are_those_named(
    store: &mut SubscriptionStore,
    client: &str,
    types: &[String],
    who: &str,
    kind: &str,
    before: SubscriptionStore,
    was: bool,
    after: SubscriptionStore,
    subscribed_now: bool,
)
    requires
        call_ensures(subscribe, (store, client, types), ()),
        call_ensures(is_subscribed, (&before, who, kind), was),
        call_ensures(is_subscribed, (&after, who, kind), subscribed_now),
    ensures
        *old(store) == before && *final(store) == after && who@ == client@ ==> (subscribed_now
            <==> exists|i: int| 0 <= i < types@.len() && (#[trigger] types@[i])@ == kind@),
        *old(store) == before && *final(store) == after && who@ != client@ ==> subscribed_now == was,
{
    let named = texts(types@);
    assert(named.len() == types@.len());
    if named.contains(kind@) {
        let i = choose|i: int| 0 <= i < named.len() && named[i] == kind@;
        assert(types@[i]@ == kind@);
    }
    if exists|i: int| 0 <= i < types@.len() && (#[trigger] types@[i])@ == kind@ {
        let i = choose|i: int| 0 <= i < types@.len() && (#[trigger] types@[i])@ == kind@;
        assert(named[i] == kind@);
    }
}

/// A client that unsubscribes is told of nothing more. The others are told of
/// what they were told of.
pub proof fn unsubscribed_clients_are_told_nothing(
    store: &mut SubscriptionStore,
    client: &str,
    who: &str,
    kind: &str,
    before: SubscriptionStore,
    was: bool,
    after: SubscriptionStore,
    subscribed_now: bool,
)
    requires
        call_ensures(unsubscribe, (store, client), ()),
        call_ensures(is_subscribed, (&before, who, kind), was),
        call_ensures(is_subscribed, (&after, who, kind), subscribed_now),
    ensures
        *final(store) == after && who@ == client@ ==> !subscribed_now,
        *old(store) == before && *final(store) == after && who@ != client@ ==> subscribed_now == was,
{
}

/// An empty store gives nothing back.
pub proof fn cleared_stores_are_empty(
    subscriptions: &mut SubscriptionStore,
    told: SubscriptionStore,
    client: &str,
    kind: &str,
    subscribed_now: bool,
    offers: &mut OfferStore,
    known_offers: OfferStore,
    offer: &str,
    an_offer: Option<OfferRecord>,
    addresses: &mut AddressStore,
    known_addresses: AddressStore,
    address: &str,
    an_address: Option<AddressRecord>,
)
    requires
        call_ensures(subscription_store::clear, (subscriptions,), ()),
        call_ensures(is_subscribed, (&told, client, kind), subscribed_now),
        call_ensures(offer_store::clear, (offers,), ()),
        call_ensures(get_offer, (&known_offers, offer), an_offer),
        call_ensures(address_store::clear, (addresses,), ()),
        call_ensures(get_address, (&known_addresses, address), an_address),
    ensures
        *final(subscriptions) == told ==> !subscribed_now,
        *final(offers) == known_offers ==> an_offer is None,
        *final(addresses) == known_addresses ==> an_address is None,
{
}

/// An offer that is put in is found as it was put in, active and unpaid. The
/// other offers are found as before.
pub proof fn inserted_offers_are_found(
    store: &mut OfferStore,
    offer: String,
    description: String,
    amount_msat: u64,
    offer_id: [u8; 32],
    name: &str,
    before: OfferStore,
    had: Option<OfferRecord>,
    after: OfferStore,
    got: Option<OfferRecord>,
)
    requires
        call_ensures(insert_offer, (store, offer, description, amount_msat, offer_id), ()),
        call_ensures(get_offer, (&before, name), had),
        call_ensures(get_offer, (&after, name), got),
    ensures
        *final(store) == after && name@ == offer@ ==> (got matches Some(r) && {
            &&& r.offer@ == offer@
            &&& r.description@ == description@
            &&& r.amount_msat == amount_msat
            &&& r.active
            &&& r.num_payments_received == 0
            &&& r.total_received_msat == 0
            &&& r.offer_id@ == offer_id@
        }),
        *old(store) == before && *final(store) == after && name@ != offer@ ==> {
            &&& got is Some <==> had is Some
            &&& got matches Some(r) ==> r@ == had->0@
        },
{
}

/// A payment to an offer is counted and added to what it received. Nothing else
/// of it changes, nor another offer.
pub proof fn payments_to_offers_are_counted(
    store: &mut OfferStore,
    offer: &str,
    amount_msat: u64,
    name: &str,
    before: OfferStore,
    had: Option<OfferRecord>,
    after: OfferStore,
    got: Option<OfferRecord>,
)
    requires
        call_requires(record_payment, (store, offer, amount_msat)),
        call_ensures(record_payment, (store, offer, amount_msat), ()),
        call_ensures(get_offer, (&before, name), had),
        call_ensures(get_offer, (&after, name), got),
        had matches Some(r) ==> r.num_payments_received < u64::MAX && r.total_received_msat
            + amount_msat <= u64::MAX,
    ensures
        *old(store) == before && *final(store) == after ==> {
            &&& got is Some <==> had is Some
            &&& had matches Some(r) ==> {
                &&& got->0.offer@ == r.offer@
                &&& got->0.description@ == r.description@
                &&& got->0.amount_msat == r.amount_msat
                &&& got->0.active == r.active
                &&& got->0.offer_id@ == r.offer_id@
                &&& name@ == offer@ ==> got->0.num_payments_received == r.num_payments_received + 1
                    && got->0.total_received_msat == r.total_received_msat + amount_msat
                &&& name@ != offer@ ==> got->0.num_payments_received == r.num_payments_received
                    && got->0.total_received_msat == r.total_received_msat
            }
        },
{
    if had is Some {
        let r = had->0;
        assert(r@.num_payments_received == r.num_payments_received);
        assert(r@.total_received_msat == r.total_received_msat);
    }
    if got is Some {
        let r = got->0;
        assert(r@.num_payments_received == r.num_payments_received);
        assert(r@.offer == r.offer@);
    }
}

/// A known offer that is disabled is found inactive and otherwise as before. The
/// other offers stay as they are.
pub proof fn disabled_offers_are_found_inactive(
    store: &mut OfferStore,
    offer: &str,
    known: bool,
    name: &str,
    before: OfferStore,
    had: Option<OfferRecord>,
    after: OfferStore,
    got: Option<OfferRecord>,
)
    requires
        call_ensures(disable_offer, (store, offer), known),
        call_ensures(get_offer, (&before, name), had),
        call_ensures(get_offer, (&after, name), got),
    ensures
        *old(store) == before && *final(store) == after ==> {
            &&& name@ == offer@ ==> (known <==> had is Some)
            &&& got is Some <==> had is Some
            &&& had matches Some(r) ==> {
                &&& got->0.offer@ == r.offer@
                &&& got->0.description@ == r.description@
                &&& got->0.amount_msat == r.amount_msat
                &&& got->0.num_payments_received == r.num_payments_received
                &&& got->0.total_received_msat == r.total_received_msat
                &&& got->0.offer_id@ == r.offer_id@
                &&& name@ == offer@ ==> !got->0.active
                &&& name@ != offer@ ==> got->0.active == r.active
            }
        },
{
    if had is Some {
        assert(had->0@.offer == had->0.offer@);
    }
    if got is Some {
        assert(got->0@.offer == got->0.offer@);
    }
}

/// A new address is found without payments. A known one keeps its payments, and
/// the others stay as they are.
pub proof fn registered_addresses_are_found(
    store: &mut AddressStore,
    address: String,
    name: &str,
    before: AddressStore,
    had: Option<AddressRecord>,
    after: AddressStore,
    got: Option<AddressRecord>,
)
    requires
        call_ensures(register_address, (store, address), ()),
        call_ensures(get_address, (&before, name), had),
        call_ensures(get_address, (&after, name), got),
    ensures
        *old(store) == before && *final(store) == after ==> {
            &&& name@ == address@ && had is None ==> (got matches Some(r) && r.address@ == address@
                && r.transactions@.len() == 0)
            &&& name@ != address@ || had is Some ==> {
                &&& got is Some <==> had is Some
                &&& got matches Some(r) ==> r@ == had->0@
            }
        },
{
    if got is Some {
        assert(got->0@.transactions.len() == got->0.transactions@.len());
    }
}

/// A payment to a known address is recorded behind the others to it. An unknown
/// address stays unknown, and the other addresses stay as they are.
pub proof fn payments_to_addresses_are_recorded(
    store: &mut AddressStore,
    address: &str,
    txid: String,
    amount_sats: u64,
    timestamp: u64,
    name: &str,
    before: AddressStore,
    had: Option<AddressRecord>,
    after: AddressStore,
    got: Option<AddressRecord>,
    i: int,
)
    requires
        call_ensures(record_transaction, (store, address, txid, amount_sats, timestamp), ()),
        call_ensures(get_address, (&before, name), had),
        call_ensures(get_address, (&after, name), got),
    ensures
        *old(store) == before && *final(store) == after ==> {
            &&& got is Some <==> had is Some
            &&& name@ != address@ ==> (got matches Some(r) ==> r@ == had->0@)
            &&& name@ == address@ ==> (had matches Some(r) ==> {
                let n = r.transactions@.len();
                let told = got->0.transactions@;
                &&& told.len() == n + 1
                &&& told[n as int].txid@ == txid@
                &&& told[n as int].amount_sats == amount_sats
                &&& told[n as int].timestamp == timestamp
                &&& 0 <= i < n ==> told[i]@ == r.transactions@[i]@
            })
        },
{
    if *old(store) == before && *final(store) == after && name@ == address@ && had is Some {
        let n = had->0.transactions@.len() as int;
        let earlier = transaction_views(had->0.transactions@);
        let told = transaction_views(got->0.transactions@);
        assert(earlier == had->0@.transactions);
        assert(told == got->0@.transactions);
        assert(earlier.len() == n);
        assert(told.len() == got->0.transactions@.len());
        assert(told[n] == got->0.transactions@[n]@);
        if 0 <= i < n {
            assert(told[i] == got->0.transactions@[i]@);
            assert(earlier[i] == had->0.transactions@[i]@);
        }
    }
}

/// The node's key and its alias are those that were set first.
pub proof fn the_first_key_and_alias_stay(
    settings: &mut ServiceSettings,
    pubkey: [u8; 32],
    named: &mut ServiceSettings,
    alias: Option<String>,
    before: ServiceSettings,
    had: &Option<[u8; 32]>,
    after: ServiceSettings,
    got: &Option<[u8; 32]>,
    owners_before: &Vec<String>,
    owners_after: &Vec<String>,
    renamed: ServiceSettings,
    name: Option<&str>,
)
    requires
        call_ensures(set_relay_pubkey, (settings, pubkey), ()),
        call_ensures(ServiceSettings::relay_pubkey, (&before,), had),
        call_ensures(ServiceSettings::relay_pubkey, (&after,), got),
        call_ensures(ServiceSettings::owners, (&before,), owners_before),
        call_ensures(ServiceSettings::owners, (&after,), owners_after),
        call_ensures(ServiceSettings::set_node_alias, (named, alias), ()),
        call_ensures(ServiceSettings::node_alias, (&renamed,), name),
    ensures
        *old(settings) == before && *final(settings) == after ==> {
            &&& *had matches Some(k) ==> (*got matches Some(g) && g@ == k@)
            &&& *had is None ==> (*got matches Some(g) && g@ == pubkey@)
            &&& texts(owners_after@) == texts(owners_before@)
        },
        *final(named) == renamed ==> {
            &&& old(named)@.node_alias is None ==> opt_str(name) == opt_text(alias)
            &&& old(named)@.node_alias matches Some(a) ==> opt_str(name) == a
        },
{
}

/// The owners are those that were set last.
pub proof fn the_last_owners_count(
    settings: &mut ServiceSettings,
    owners: Vec<String>,
    before: ServiceSettings,
    had: &Option<[u8; 32]>,
    after: ServiceSettings,
    got: &Option<[u8; 32]>,
    told: &Vec<String>,
)
    requires
        call_ensures(set_owners, (settings, owners), ()),
        call_ensures(ServiceSettings::relay_pubkey, (&before,), had),
        call_ensures(ServiceSettings::relay_pubkey, (&after,), got),
        call_ensures(ServiceSettings::owners, (&after,), told),
    ensures
        *final(settings) == after ==> texts(told@) == texts(owners@),
        *old(settings) == before && *final(settings) == after ==> key_bytes(*got) == key_bytes(
            *had,
        ),
{
}

/// A method is made to fail from when that is switched on until it is switched
/// off, and no other is.
pub proof fn forced_failures_are_those_set(
    failures: &mut ForcedFailures,
    method: Method,
    enabled: bool,
    asked: Method,
    before: ForcedFailures,
    was: bool,
    after: ForcedFailures,
    forced: bool,
    cleared: &mut ForcedFailures,
    empty: ForcedFailures,
    still: bool,
)
    requires
        call_ensures(set_execute_failure_for_testing, (failures, method, enabled), ()),
        call_ensures(should_force_execute_failure, (&before, &asked), was),
        call_ensures(should_force_execute_failure, (&after, &asked), forced),
        call_ensures(clear_execute_failures_for_testing, (cleared,), ()),
        call_ensures(should_force_execute_failure, (&empty, &asked), still),
    ensures
        *final(failures) == after && asked@ == method@ ==> forced == enabled,
        *old(failures) == before && *final(failures) == after && asked@ != method@ ==> forced == was,
        *final(cleared) == empty ==> !still,
{
}

/// A grant that is applied gives its client the profile that it carries; any
/// other leaves every profile as it was.
pub proof fn applied_grants_set_the_profile<R>(
    grants: &mut Grants<R>,
    tags: Vec<Vec<String>>,
    relay_pubkey: Option<[u8; 32]>,
    created_at: u64,
    event_id: &str,
    profile: Option<UsageProfile<R>>,
    out: GrantOutcome,
    target: Option<String>,
    client: &str,
    before: Grants<R>,
    had: Option<&UsageProfile<R>>,
    after: Grants<R>,
    got: Option<&UsageProfile<R>>,
)
    requires
        call_ensures(
            Grants::<R>::apply_grant,
            (grants, &tags, &relay_pubkey, created_at, event_id, profile),
            out,
        ),
        call_ensures(parse_grant_target, (&tags, &relay_pubkey), target),
        call_ensures(get_usage_profile::<R>, (&before, client), had),
        call_ensures(get_usage_profile::<R>, (&after, client), got),
    ensures
        out is NoTarget <==> target is None,
        out is Applied ==> profile is Some && target is Some,
        out is Unreadable ==> profile is None && target is Some,
        *old(grants) == before && *final(grants) == after ==> {
            &&& out is Applied && client@ == target->0@ ==> got is Some && Some(*got->0) == profile
            &&& !(out is Applied) || client@ != target->0@ ==> {
                &&& got is Some <==> had is Some
                &&& got is Some ==> *got->0 == *had->0
            }
        },
{
}

/// After a grant has been applied, one for the same client that was made earlier
/// is outdated, and so is the same one again. One that was made later is not.
pub proof fn earlier_grants_are_outdated<R>(
    first: &mut Grants<R>,
    tags: Vec<Vec<String>>,
    relay_pubkey: Option<[u8; 32]>,
    created_at: u64,
    event_id: &str,
    profile: Option<UsageProfile<R>>,
    out: GrantOutcome,
    second: &mut Grants<R>,
    other_at: u64,
    other_id: &str,
    other_profile: Option<UsageProfile<R>>,
    other_out: GrantOutcome,
)
    requires
        call_ensures(
            Grants::<R>::apply_grant,
            (first, &tags, &relay_pubkey, created_at, event_id, profile),
            out,
        ),
        call_ensures(
            Grants::<R>::apply_grant,
            (second, &tags, &relay_pubkey, other_at, other_id, other_profile),
            other_out,
        ),
        out is Applied || out is Unreadable,
    ensures
        *final(first) == *old(second) ==> {
            &&& other_at < created_at ==> other_out is Outdated
            &&& other_at > created_at ==> !(other_out is Outdated)
            &&& other_at == created_at ==> (other_out is Outdated <==> !text_less(
                event_id@,
                other_id@,
            ))
        },
{
}

} // verus!
