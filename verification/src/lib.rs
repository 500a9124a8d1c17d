//! A controller for a Lightning node that is reached over Nostr: it checks who
//! may ask for what, answers wallet and node requests, and tells subscribers
//! what happens on the node.

use vstd::prelude::*;

pub mod access;
pub mod control;
pub mod laws;
pub mod crypto;
pub mod lightning;
pub mod nip47;
pub mod relay;
pub mod settings;
pub mod state;
pub mod text;
pub mod views;
pub mod wallet;

pub use access::{AccessErrorContext, MethodAccessRule, RateStateError, UsageProfile};
pub use relay::grants::{clear_usage_profiles, get_usage_profile};
pub use settings::{set_owners, set_relay_pubkey};
pub use wallet::execute::payment_details_to_lookup_response;
pub use wallet::request::{clear_execute_failures_for_testing, set_execute_failure_for_testing};

use state::subscription_store::SubscriptionStore;

verus! {

/// The kind of the events that carry control requests.
pub const CONTROL_REQUEST_KIND: u16 = 23198;

/// The kind of the events that carry answers to control requests.
pub const CONTROL_RESPONSE_KIND: u16 = 23199;

/// The kind of the event that tells what can be asked of the node.
pub const CONTROL_INFO_KIND: u16 = 13198;

/// Forgets every subscription.
pub fn clear_subscriptions(subscriptions: &mut SubscriptionStore)
    requires
        old(subscriptions).wf(),
    ensures
        final(subscriptions).wf(),
        final(subscriptions)@ == Map::<Seq<char>, Set<Seq<char>>>::empty(),
{
    state::subscription_store::clear(subscriptions);
}

} // verus!
