//! Which client asked to be told about which events.

use vstd::prelude::*;
use vstd::string::*;

use crate::state::text_map::TextMap;
#[allow(unused_imports)]
use crate::state::text_map::lemma_entries;
use crate::text::{has_text, texts};

verus! {

/// The types of notification that each client subscribed to.
pub struct SubscriptionStore {
    clients: TextMap<Vec<String>>,
}

impl SubscriptionStore {
    /// No client is listed twice.
    pub closed spec fn wf(&self) -> bool {
        self.clients.wf()
    }

    /// A store without subscriptions.
    pub fn new() -> (store: SubscriptionStore)
        ensures
            store.wf(),
            store@ == Map::<Seq<char>, Set<Seq<char>>>::empty(),
    {
        let store: SubscriptionStore = SubscriptionStore { clients: TextMap::new() };
        assert(store@ =~= Map::<Seq<char>, Set<Seq<char>>>::empty());
        store
    }
}

impl View for SubscriptionStore {
    type V = Map<Seq<char>, Set<Seq<char>>>;

    /// The types of each client.
    closed spec fn view(&self) -> Map<Seq<char>, Set<Seq<char>>> {
        self.clients@.map_values(|v: Vec<String>| texts(v@).to_set())
    }
}

/// `client` is to be told about events of the type `kind`.
pub open spec fn subscribed(
    m: Map<Seq<char>, Set<Seq<char>>>,
    client: Seq<char>,
    kind: Seq<char>,
) -> bool {
    m.contains_key(client) && m[client].contains(kind)
}

/// Subscribes a client to the given types, in place of those it had.
pub fn subscribe(store: &mut SubscriptionStore, client_pubkey: &str, types: &[String])
    requires
        old(store).wf(),
    ensures
        final(store).wf(),
        final(store)@ == old(store)@.insert(client_pubkey@, texts(types@).to_set()),
{
    let ghost before = store@;
    let mut list: Vec<String> = Vec::new();
    let mut i: usize = 0;
    while i < types.len()
        invariant
            i <= types.len(),
            list.len() == i,
            forall|k: int| 0 <= k < i ==> (#[trigger] list@[k])@ == types@[k]@,
        decreases types.len() - i,
    {
        list.push(String::from_str(types[i].as_str()));
        i += 1;
    }
    assert(texts(list@) =~= texts(types@));
    store.clients.insert(String::from_str(client_pubkey), list);
    assert(store@ =~= before.insert(client_pubkey@, texts(types@).to_set()));
}

/// Removes every subscription of a client.
pub fn unsubscribe(store: &mut SubscriptionStore, client_pubkey: &str)
    requires
        old(store).wf(),
    ensures
        final(store).wf(),
        final(store)@ == old(store)@.remove(client_pubkey@),
{
    let ghost before = store@;
    let _gone: Option<Vec<String>> = store.clients.remove(client_pubkey);
    assert(store@ =~= before.remove(client_pubkey@));
}

/// The clients that subscribed to a type, each once.
pub fn get_subscribers(store: &SubscriptionStore, notification_type: &str) -> (out: Vec<String>)
    requires
        store.wf(),
    ensures
        texts(out@).no_duplicates(),
        forall|c: Seq<char>| #[trigger]
            texts(out@).contains(c) <==> subscribed(store@, c, notification_type@),
{
    let mut out: Vec<String> = Vec::new();
    let mut i: usize = 0;
    let n: usize = store.clients.len();
    let ghost mut places: Seq<int> = Seq::empty();
    proof {
        lemma_entries(&store.clients);
    }
    while i < n
        invariant
            store.wf(),
            n == store.clients.size(),
            i <= n,
            places.len() == out@.len(),
            forall|k: int|
                #![trigger places[k]]
                0 <= k < out@.len() ==> 0 <= places[k] < i && out@[k]@ == store.clients.at(
                    places[k],
                ).0 && texts(store.clients.at(places[k]).1@).contains(notification_type@),
            forall|a: int, b: int|
                #![trigger places[a], places[b]]
                0 <= a < b < places.len() ==> places[a] < places[b],
            forall|p: int|
                #![trigger store.clients.at(p)]
                0 <= p < i && texts(store.clients.at(p).1@).contains(notification_type@)
                    ==> exists|k: int| 0 <= k < places.len() && #[trigger] places[k] == p,
        decreases n - i,
    {
        let ghost before = places;
        if has_text(store.clients.value_at(i), notification_type) {
            out.push(String::from_str(store.clients.key_at(i)));
            proof {
                places = places.push(i as int);
                assert(places[before.len() as int] == i);
                assert forall|p: int|
                    #![trigger store.clients.at(p)]
                    0 <= p < i + 1 && texts(store.clients.at(p).1@).contains(
                        notification_type@,
                    ) implies exists|k: int|
                    0 <= k < places.len() && #[trigger] places[k] == p by {
                    if p < i {
                        let k = choose|k: int| 0 <= k < before.len() && #[trigger] before[k] == p;
                        assert(places[k] == p);
                    }
                }
            }
        }
        i += 1;
    }
    proof {
        lemma_entries(&store.clients);
        assert forall|a: int, b: int|
            0 <= a < texts(out@).len() && 0 <= b < texts(out@).len() && a != b implies texts(
            out@,
        )[a] != texts(out@)[b] by {
            assert(store.clients.at(places[a]).0 == texts(out@)[a]);
            assert(store.clients.at(places[b]).0 == texts(out@)[b]);
            assert(places[a] != places[b]) by {
                if a < b {
                    assert(places[a] < places[b]);
                } else {
                    assert(places[b] < places[a]);
                }
            }
        }
        assert forall|c: Seq<char>| #[trigger]
            texts(out@).contains(c) <==> subscribed(store@, c, notification_type@) by {
            if texts(out@).contains(c) {
                let a = choose|a: int| 0 <= a < texts(out@).len() && texts(out@)[a] == c;
                assert(store.clients.at(places[a]).0 == c);
                assert(store.clients@.contains_key(c));
            }
            if subscribed(store@, c, notification_type@) {
                assert(store.clients@.contains_key(c));
                let p = store.clients.place(c);
                assert(store.clients.at(p).0 == c);
                let k = choose|k: int| 0 <= k < places.len() && #[trigger] places[k] == p;
                assert(texts(out@)[k] == c);
            }
        }
    }
    out
}

/// Whether a client subscribed to a type.
pub fn is_subscribed(
    store: &SubscriptionStore,
    client_pubkey: &str,
    notification_type: &str,
) -> (out: bool)
    requires
        store.wf(),
    ensures
        out == subscribed(store@, client_pubkey@, notification_type@),
{
    match store.clients.get(client_pubkey) {
        Some(types) => has_text(types, notification_type),
        None => false,
    }
}

/// Removes every subscription.
pub fn clear(store: &mut SubscriptionStore)
    ensures
        final(store).wf(),
        final(store)@ == Map::<Seq<char>, Set<Seq<char>>>::empty(),
{
    store.clients.clear();
    assert(store@ =~= Map::<Seq<char>, Set<Seq<char>>>::empty());
}

} // verus!
