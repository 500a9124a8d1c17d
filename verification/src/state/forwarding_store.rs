//! The payments that the node forwarded, in the order in which they settled.

use vstd::prelude::*;
use vstd::string::*;

use crate::state::page::page;

verus! {

/// A forwarded payment. Amounts are in millisatoshis, the time in seconds
/// since the epoch.
#[derive(Debug, Clone)]
pub struct ForwardingEntry {
    pub incoming_channel_id: String,
    pub outgoing_channel_id: String,
    pub incoming_amount: u64,
    pub outgoing_amount: u64,
    pub fee_earned: u64,
    pub settled_at: u64,
}

/// What a [`ForwardingEntry`] holds.
pub struct ForwardingView {
    pub incoming_channel_id: Seq<char>,
    pub outgoing_channel_id: Seq<char>,
    pub incoming_amount: u64,
    pub outgoing_amount: u64,
    pub fee_earned: u64,
    pub settled_at: u64,
}

impl View for ForwardingEntry {
    type V = ForwardingView;

    open spec fn view(&self) -> ForwardingView {
        ForwardingView {
            incoming_channel_id: self.incoming_channel_id@,
            outgoing_channel_id: self.outgoing_channel_id@,
            incoming_amount: self.incoming_amount,
            outgoing_amount: self.outgoing_amount,
            fee_earned: self.fee_earned,
            settled_at: self.settled_at,
        }
    }
}

impl ForwardingEntry {
    /// An entry with the same contents.
    pub fn copy(&self) -> (out: ForwardingEntry)
        ensures
            out@ == self@,
    {
        ForwardingEntry {
            incoming_channel_id: String::from_str(self.incoming_channel_id.as_str()),
            outgoing_channel_id: String::from_str(self.outgoing_channel_id.as_str()),
            incoming_amount: self.incoming_amount,
            outgoing_amount: self.outgoing_amount,
            fee_earned: self.fee_earned,
            settled_at: self.settled_at,
        }
    }
}

/// The views of a list of entries.
pub open spec fn entry_views(s: Seq<ForwardingEntry>) -> Seq<ForwardingView> {
    s.map_values(|e: ForwardingEntry| e@)
}

/// The recorded forwards.
pub struct ForwardingStore {
    entries: Vec<ForwardingEntry>,
}

impl View for ForwardingStore {
    type V = Seq<ForwardingView>;

    closed spec fn view(&self) -> Seq<ForwardingView> {
        entry_views(self.entries@)
    }
}

impl ForwardingStore {
    /// A store without forwards.
    pub fn new() -> (store: ForwardingStore)
        ensures
            store@ == Seq::<ForwardingView>::empty(),
    {
        let store: ForwardingStore = ForwardingStore { entries: Vec::new() };
        assert(store@ =~= Seq::<ForwardingView>::empty());
        store
    }
}

/// The forward settled no earlier than `from` and no later than `until`.
pub open spec fn settled_within(from: Option<u64>, until: Option<u64>) -> spec_fn(
    ForwardingView,
) -> bool {
    |e: ForwardingView|
        (from matches Some(t) ==> e.settled_at >= t) && (until matches Some(t) ==> e.settled_at
            <= t)
}

/// All forwards that settled within the given times.
pub open spec fn whole_history(
    forwards: Seq<ForwardingView>,
    from: Option<u64>,
    until: Option<u64>,
) -> Seq<ForwardingView> {
    page(forwards.filter(settled_within(from, until)), 0, usize::MAX as int)
}

/// Adds a forward behind the others.
pub fn record_forward(store: &mut ForwardingStore, entry: ForwardingEntry)
    ensures
        final(store)@ == old(store)@.push(entry@),
        whole_history(final(store)@, None, None) == whole_history(old(store)@, None, None).push(
            entry@,
        ),
{
    let ghost before = *store;
    store.entries.push(entry);
    proof {
        assert(store@ =~= before@.push(entry@));
        recorded_forwards_end_the_history(before, *store, entry@, None, None);
    }
}

/// The forwards that settled within the given times, without the first
/// `offset` of them, and at most `limit`.
pub fn get_history(
    store: &ForwardingStore,
    from: Option<u64>,
    until: Option<u64>,
    limit: usize,
    offset: usize,
) -> (out: Vec<ForwardingEntry>)
    ensures
        entry_views(out@) == page(
            store@.filter(settled_within(from, until)),
            offset as int,
            limit as int,
        ),
{
    let ghost keep = settled_within(from, until);
    let mut out: Vec<ForwardingEntry> = Vec::new();
    let mut seen: usize = 0;
    let mut i: usize = 0;
    proof {
        assert(store@.take(0) =~= Seq::<ForwardingView>::empty());
        reveal(Seq::filter);
        assert(entry_views(out@) =~= page(store@.take(0).filter(keep), offset as int, limit as int));
    }
    while i < store.entries.len()
        invariant
            keep == settled_within(from, until),
            i <= store.entries.len(),
            seen == store@.take(i as int).filter(keep).len(),
            seen <= i,
            entry_views(out@) == page(
                store@.take(i as int).filter(keep),
                offset as int,
                limit as int,
            ),
        decreases store.entries.len() - i,
    {
        let e: &ForwardingEntry = &store.entries[i];
        let ghost kept = store@.take(i as int).filter(keep);
        let late: bool = match from {
            Some(t) => e.settled_at >= t,
            None => true,
        };
        let early: bool = match until {
            Some(t) => e.settled_at <= t,
            None => true,
        };
        proof {
            assert(store@.take(i + 1).drop_last() =~= store@.take(i as int));
            assert(store@.take(i + 1).last() == e@);
            reveal(Seq::filter);
            if late && early {
                assert(store@.take(i + 1).filter(keep) == kept.push(e@));
            } else {
                assert(store@.take(i + 1).filter(keep) == kept);
            }
        }
        if late && early {
            if seen >= offset && seen - offset < limit {
                let ghost before = out@;
                out.push(e.copy());
                proof {
                    assert(entry_views(out@) =~= entry_views(before).push(e@));
                    assert(page(kept.push(e@), offset as int, limit as int) =~= page(
                        kept,
                        offset as int,
                        limit as int,
                    ).push(e@));
                }
            } else {
                assert(page(kept.push(e@), offset as int, limit as int) =~= page(
                    kept,
                    offset as int,
                    limit as int,
                ));
            }
            seen += 1;
        }
        i += 1;
    }
    assert(store@.take(i as int) =~= store@);
    out
}

/// Forgets every forward.
pub fn clear(store: &mut ForwardingStore)
    ensures
        final(store)@ == Seq::<ForwardingView>::empty(),
{
    store.entries.clear();
    assert(store@ =~= Seq::<ForwardingView>::empty());
}

/// A forward that is recorded is the last of the history, behind all that stood
/// there before, as long as it settled within the times that are asked for.
pub proof fn recorded_forwards_end_the_history(
    before: ForwardingStore,
    after: ForwardingStore,
    entry: ForwardingView,
    from: Option<u64>,
    until: Option<u64>,
)
    requires
        after@ == before@.push(entry),
    ensures
        whole_history(after@, from, until) == (if settled_within(from, until)(entry) {
            whole_history(before@, from, until).push(entry)
        } else {
            whole_history(before@, from, until)
        }),
        whole_history(before@, None, None) == before@,
        whole_history(after@, None, None) == whole_history(before@, None, None).push(entry),
{
    assert(after.entries.len() == after@.len());
    lemma_recorded(before@, entry, from, until);
    lemma_recorded(before@, entry, None, None);
    lemma_whole_history(before@);
    assert(whole_history(before@, None, None) =~= before@);
}

proof fn lemma_whole_history(forwards: Seq<ForwardingView>)
    ensures
        forwards.filter(settled_within(None, None)) == forwards,
    decreases forwards.len(),
{
    reveal(Seq::filter);
    if forwards.len() > 0 {
        lemma_whole_history(forwards.drop_last());
        assert(forwards.drop_last().push(forwards.last()) =~= forwards);
    } else {
        assert(forwards.filter(settled_within(None, None)) =~= forwards);
    }
}

proof fn lemma_recorded(
    forwards: Seq<ForwardingView>,
    entry: ForwardingView,
    from: Option<u64>,
    until: Option<u64>,
)
    requires
        forwards.len() < usize::MAX,
    ensures
        whole_history(forwards.push(entry), from, until) == (if settled_within(from, until)(entry) {
            whole_history(forwards, from, until).push(entry)
        } else {
            whole_history(forwards, from, until)
        }),
{
    let keep = settled_within(from, until);
    forwards.lemma_filter_len(keep);
    reveal(Seq::filter);
    assert(forwards.push(entry).drop_last() =~= forwards);
    assert(whole_history(forwards, from, until) =~= forwards.filter(keep));
    let after = forwards.push(entry);
    assert(whole_history(after, from, until) =~= after.filter(keep));
}

} // verus!
