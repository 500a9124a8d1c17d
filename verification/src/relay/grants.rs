//! Grants: events that tell what a client may do. For each client the newest
//! grant counts, whatever the order in which the grants arrive.

use vstd::prelude::*;

use crate::access::UsageProfile;
use crate::crypto::tag_value;
#[allow(unused_imports)]
use crate::crypto::{tag_views, tagged};
use crate::lightning::hex::hex_string;
#[allow(unused_imports)]
use crate::lightning::hex::hex_text;
use crate::state::text_map::TextMap;
use crate::text::{compare_text, copy_text, same_text, split_at_first, TextOrder};
#[allow(unused_imports)]
use crate::text::{first_index, opt_text, text_less, text_order_is_total, text_order_is_transitive};

verus! {

/// When a grant was made, and the name of its event.
#[derive(Debug)]
pub struct AppliedGrantEvent<S = String> {
    pub created_at: u64,
    pub event_id: S,
}

impl View for AppliedGrantEvent {
    type V = AppliedGrantEvent<Seq<char>>;

    open spec fn view(&self) -> Self::V {
        AppliedGrantEvent { created_at: self.created_at, event_id: self.event_id@ }
    }
}

/// One grant is newer than another: it was made later or, within the same
/// second, has the greater name.
pub open spec fn newer(a: AppliedGrantEvent<Seq<char>>, b: AppliedGrantEvent<Seq<char>>) -> bool {
    a.created_at > b.created_at || (a.created_at == b.created_at && text_less(
        b.event_id,
        a.event_id,
    ))
}

/// Of two different grants exactly one is newer.
pub proof fn grant_order_is_total(
    a: AppliedGrantEvent<Seq<char>>,
    b: AppliedGrantEvent<Seq<char>>,
)
    ensures
        !newer(a, a),
        a != b ==> newer(a, b) != newer(b, a),
{
    text_order_is_total(a.event_id, b.event_id);
}

/// What is newer than a newer grant is newer.
pub proof fn grant_order_is_transitive(
    a: AppliedGrantEvent<Seq<char>>,
    b: AppliedGrantEvent<Seq<char>>,
    c: AppliedGrantEvent<Seq<char>>,
)
    requires
        newer(a, b),
        newer(b, c),
    ensures
        newer(a, c),
{
    if a.created_at == b.created_at && b.created_at == c.created_at {
        text_order_is_transitive(c.event_id, b.event_id, a.event_id);
    }
}

/// The client that a grant is for, if the grant is for this node: the tag `d`
/// names the node and the client with a colon between them.
pub open spec fn grant_target(tags: Seq<Seq<Seq<char>>>, relay_pubkey: Option<Seq<u8>>) -> Option<
    Seq<char>,
> {
    match tagged(tags, "d"@) {
        None => None,
        Some(value) => {
            let colon = first_index(value, ':');
            if relay_pubkey is Some && value.take(colon) != hex_text(relay_pubkey->0) {
                None
            } else if colon >= value.len() - 1 {
                None
            } else {
                Some(value.skip(colon + 1))
            }
        },
    }
}

/// The bytes of an optional key.
pub open spec fn key_bytes(key: Option<[u8; 32]>) -> Option<Seq<u8>> {
    match key {
        Some(k) => Some(k@),
        None => None,
    }
}

/// The client that a grant is for, if the grant is for this node.
pub fn parse_grant_target(tags: &Vec<Vec<String>>, relay_pubkey: &Option<[u8; 32]>) -> (out: Option<
    String,
>)
    ensures
        opt_text(out) == grant_target(tag_views(tags@), key_bytes(*relay_pubkey)),
{
    let value: &str = match tag_value(tags, "d") {
        Some(value) => value,
        None => return None,
    };
    let (node_pubkey, user_pubkey) = split_at_first(value, ':');
    if let Some(configured) = relay_pubkey {
        if !same_text(node_pubkey.as_str(), hex_string(configured).as_str()) {
            return None;
        }
    }
    match user_pubkey {
        None => None,
        Some(user) => {
            proof {
                reveal_strlit("");
                assert(""@.len() == 0);
                assert(user@.len() == 0 ==> user@ =~= ""@);
                assert(first_index(value@, ':') < value@.len());
                assert(user@.len() == value@.len() - first_index(value@, ':') - 1);
            }
            if same_text(user.as_str(), "") {
                None
            } else {
                Some(user)
            }
        },
    }
}

/// What became of a grant.
#[derive(Debug, Clone, Copy, PartialEq, Eq, Structural)]
pub enum GrantOutcome {
    Applied,
    Outdated,
    Unreadable,
    NoTarget,
}

/// The newest grant of each client, and what each client may do.
pub struct GrantsView<R> {
    pub applied: Map<Seq<char>, AppliedGrantEvent<Seq<char>>>,
    pub profiles: Map<Seq<char>, UsageProfile<R>>,
}

/// A grant for a client. Its profile is missing where it cannot be read.
pub struct Grant<R> {
    pub target: Seq<char>,
    pub mark: AppliedGrantEvent<Seq<char>>,
    pub profile: Option<UsageProfile<R>>,
}

/// A grant is the first for its client, or newer than the newest so far.
pub open spec fn counts(
    applied: Map<Seq<char>, AppliedGrantEvent<Seq<char>>>,
    target: Seq<char>,
    mark: AppliedGrantEvent<Seq<char>>,
) -> bool {
    !applied.contains_key(target) || newer(mark, applied[target])
}

/// What is known after a grant. One that cannot be read leaves the profile of
/// its client as it is, but still outdates older ones.
pub open spec fn after_grant<R>(known: GrantsView<R>, grant: Grant<R>) -> GrantsView<R> {
    if !counts(known.applied, grant.target, grant.mark) {
        known
    } else {
        GrantsView {
            applied: known.applied.insert(grant.target, grant.mark),
            profiles: match grant.profile {
                Some(profile) => known.profiles.insert(grant.target, profile),
                None => known.profiles,
            },
        }
    }
}

/// The grants of the clients.
pub struct Grants<R> {
    applied: TextMap<AppliedGrantEvent>,
    profiles: TextMap<UsageProfile<R>>,
}

impl<R> View for Grants<R> {
    type V = GrantsView<R>;

    closed spec fn view(&self) -> GrantsView<R> {
        GrantsView {
            applied: self.applied@.map_values(|e: AppliedGrantEvent| e@),
            profiles: self.profiles@,
        }
    }
}

impl<R> Grants<R> {
    /// No client is listed twice.
    pub closed spec fn wf(&self) -> bool {
        self.applied.wf() && self.profiles.wf()
    }

    /// No grants.
    pub fn new() -> (out: Grants<R>)
        ensures
            out.wf(),
            out@.applied == Map::<Seq<char>, AppliedGrantEvent<Seq<char>>>::empty(),
            out@.profiles == Map::<Seq<char>, UsageProfile<R>>::empty(),
    {
        let out: Grants<R> = Grants { applied: TextMap::new(), profiles: TextMap::new() };
        assert(out@.applied =~= Map::<Seq<char>, AppliedGrantEvent<Seq<char>>>::empty());
        out
    }

    /// Whether a grant counts. One that does is remembered as the newest of its
    /// client.
    pub fn should_apply_grant_event(
        &mut self,
        target_pubkey: &str,
        created_at: u64,
        event_id: &str,
    ) -> (out: bool)
        requires
            old(self).wf(),
        ensures
            final(self).wf(),
            out == counts(
                old(self)@.applied,
                target_pubkey@,
                (AppliedGrantEvent { created_at, event_id: event_id@ }),
            ),
            final(self)@.profiles == old(self)@.profiles,
            final(self)@.applied == (if out {
                old(self)@.applied.insert(
                    target_pubkey@,
                    (AppliedGrantEvent { created_at, event_id: event_id@ }),
                )
            } else {
                old(self)@.applied
            }),
    {
        let ghost before = self@;
        let should_apply: bool = match self.applied.get(target_pubkey) {
            None => true,
            Some(existing) => created_at > existing.created_at || (created_at
                == existing.created_at && match compare_text(
                event_id,
                existing.event_id.as_str(),
            ) {
                TextOrder::Greater => {
                    proof {
                        text_order_is_total(event_id@, existing.event_id@);
                    }
                    true
                },
                _ => {
                    proof {
                        text_order_is_total(event_id@, existing.event_id@);
                    }
                    false
                },
            }),
        };
        if should_apply {
            self.applied.insert(
                copy_text(target_pubkey),
                AppliedGrantEvent { created_at, event_id: copy_text(event_id) },
            );
            assert(self@.applied =~= before.applied.insert(
                target_pubkey@,
                (AppliedGrantEvent { created_at, event_id: event_id@ }),
            ));
        }
        should_apply
    }

    /// Sets what a client may do, in place of what it might.
    pub fn upsert_usage_profile(&mut self, pubkey: &str, profile: UsageProfile<R>)
        requires
            old(self).wf(),
        ensures
            final(self).wf(),
            final(self)@.applied == old(self)@.applied,
            final(self)@.profiles == old(self)@.profiles.insert(pubkey@, profile),
    {
        self.profiles.insert(copy_text(pubkey), profile);
    }

    /// Applies a grant as it came in, with the profile that its content was read
    /// as, if it could be read.
    pub fn apply_grant(
        &mut self,
        tags: &Vec<Vec<String>>,
        relay_pubkey: &Option<[u8; 32]>,
        created_at: u64,
        event_id: &str,
        profile: Option<UsageProfile<R>>,
    ) -> (out: GrantOutcome)
        requires
            old(self).wf(),
        ensures
            final(self).wf(),
            match grant_target(tag_views(tags@), key_bytes(*relay_pubkey)) {
                None => out == GrantOutcome::NoTarget && final(self)@ == old(self)@,
                Some(target) => {
                    let mark = (AppliedGrantEvent { created_at, event_id: event_id@ });
                    &&& final(self)@ == after_grant(old(self)@, (Grant { target, mark, profile }))
                    &&& out == (if !counts(old(self)@.applied, target, mark) {
                        GrantOutcome::Outdated
                    } else if profile is None {
                        GrantOutcome::Unreadable
                    } else {
                        GrantOutcome::Applied
                    })
                },
            },
    {
        let target: String = match parse_grant_target(tags, relay_pubkey) {
            Some(target) => target,
            None => return GrantOutcome::NoTarget,
        };
        if !self.should_apply_grant_event(target.as_str(), created_at, event_id) {
            return GrantOutcome::Outdated;
        }
        match profile {
            Some(profile) => {
                self.upsert_usage_profile(target.as_str(), profile);
                GrantOutcome::Applied
            },
            None => GrantOutcome::Unreadable,
        }
    }
}

/// What a client may do.
pub fn get_usage_profile<'a, R>(grants: &'a Grants<R>, pubkey: &str) -> (out: Option<
    &'a UsageProfile<R>,
>)
    requires
        grants.wf(),
    ensures
        match out {
            Some(profile) => grants@.profiles.contains_key(pubkey@) && *profile
                == grants@.profiles[pubkey@],
            None => !grants@.profiles.contains_key(pubkey@),
        },
{
    grants.profiles.get(pubkey)
}

/// Forgets what the clients may do. Older grants stay outdated.
pub fn clear_usage_profiles<R>(grants: &mut Grants<R>)
    requires
        old(grants).wf(),
    ensures
        final(grants).wf(),
        final(grants)@.applied == old(grants)@.applied,
        final(grants)@.profiles == Map::<Seq<char>, UsageProfile<R>>::empty(),
{
    grants.profiles = TextMap::new();
}

/// What is known after a list of grants.
pub open spec fn after_grants<R>(known: GrantsView<R>, grants: Seq<Grant<R>>) -> GrantsView<R>
    decreases grants.len(),
{
    if grants.len() == 0 {
        known
    } else {
        after_grant(after_grants(known, grants.drop_last()), grants.last())
    }
}

/// Nothing is known yet.
pub open spec fn no_grants<R>() -> GrantsView<R> {
    GrantsView { applied: Map::empty(), profiles: Map::empty() }
}

/// A grant is the newest of those for its client.
pub open spec fn is_newest<R>(grants: Seq<Grant<R>>, grant: Grant<R>) -> bool {
    &&& grants.contains(grant)
    &&& forall|other: Grant<R>| #[trigger]
        grants.contains(other) && other.target == grant.target ==> !newer(other.mark, grant.mark)
}

/// What is remembered of a client is its newest grant and, where every grant
/// can be read, that grant's profile. Of a client without grants nothing is
/// remembered.
pub proof fn the_newest_grant_counts<R>(grants: Seq<Grant<R>>, target: Seq<char>)
    requires
        forall|g: Grant<R>| #[trigger] grants.contains(g) ==> g.profile is Some,
    ensures
        ({
            let known = after_grants(no_grants::<R>(), grants);
            if exists|g: Grant<R>| #[trigger] grants.contains(g) && g.target == target {
                &&& known.applied.contains_key(target)
                &&& known.profiles.contains_key(target)
                &&& exists|g: Grant<R>| #[trigger]
                    is_newest(grants, g) && g.target == target && known.applied[target] == g.mark
                        && g.profile == Some(known.profiles[target])
            } else {
                !known.applied.contains_key(target) && !known.profiles.contains_key(target)
            }
        }),
    decreases grants.len(),
{
    if grants.len() > 0 {
        let rest = grants.drop_last();
        let last = grants.last();
        let before = after_grants(no_grants::<R>(), rest);
        let known = after_grants(no_grants::<R>(), grants);
        assert(grants =~= rest.push(last));
        assert forall|g: Grant<R>| #[trigger] grants.contains(g) == (rest.contains(g) || g
            == last) by {
            if rest.contains(g) {
                let i = choose|i: int| 0 <= i < rest.len() && rest[i] == g;
                assert(grants[i] == g);
            }
            if g == last {
                assert(grants[grants.len() - 1] == g);
            }
        }
        assert forall|g: Grant<R>| #[trigger] rest.contains(g) implies g.profile is Some by {
            assert(grants.contains(g));
        }
        the_newest_grant_counts(rest, target);
        if exists|g: Grant<R>| #[trigger] rest.contains(g) && g.target == target {
            let best = choose|g: Grant<R>| #[trigger]
                is_newest(rest, g) && g.target == target && before.applied[target] == g.mark
                    && g.profile == Some(before.profiles[target]);
            if last.target == target && newer(last.mark, best.mark) {
                assert forall|other: Grant<R>| #[trigger]
                    grants.contains(other) && other.target == target implies !newer(
                    other.mark,
                    last.mark,
                ) by {
                    if newer(other.mark, last.mark) {
                        grant_order_is_total(last.mark, last.mark);
                        grant_order_is_transitive(other.mark, last.mark, best.mark);
                    }
                }
                assert(is_newest(grants, last));
            } else {
                assert(is_newest(grants, best));
            }
        } else if last.target == target {
            grant_order_is_total(last.mark, last.mark);
            assert(is_newest(grants, last));
        }
    }
}

/// Two lists of the same grants come to the same for one client.
proof fn lemma_grants_agree<R>(a: Seq<Grant<R>>, b: Seq<Grant<R>>, t: Seq<char>)
    requires
        forall|g: Grant<R>| #[trigger] a.contains(g) == b.contains(g),
        forall|g: Grant<R>| #[trigger] a.contains(g) ==> g.profile is Some,
        forall|g: Grant<R>, h: Grant<R>| #[trigger]
            a.contains(g) && #[trigger] a.contains(h) && g.target == h.target && g.mark == h.mark
                ==> g == h,
    ensures
        ({
            let x = after_grants(no_grants::<R>(), a);
            let y = after_grants(no_grants::<R>(), b);
            &&& x.applied.contains_key(t) == y.applied.contains_key(t)
            &&& x.profiles.contains_key(t) == y.profiles.contains_key(t)
            &&& x.applied.contains_key(t) ==> x.applied[t] == y.applied[t]
            &&& x.profiles.contains_key(t) ==> x.profiles[t] == y.profiles[t]
        }),
{
    let x = after_grants(no_grants::<R>(), a);
    let y = after_grants(no_grants::<R>(), b);
    assert forall|g: Grant<R>| #[trigger] b.contains(g) implies g.profile is Some by {
        assert(a.contains(g));
    }
    the_newest_grant_counts(a, t);
    the_newest_grant_counts(b, t);
    if exists|g: Grant<R>| #[trigger] a.contains(g) && g.target == t {
        let some = choose|g: Grant<R>| #[trigger] a.contains(g) && g.target == t;
        assert(b.contains(some));
        let g = choose|g: Grant<R>| #[trigger]
            is_newest(a, g) && g.target == t && x.applied[t] == g.mark && g.profile == Some(
                x.profiles[t],
            );
        let h = choose|g: Grant<R>| #[trigger]
            is_newest(b, g) && g.target == t && y.applied[t] == g.mark && g.profile == Some(
                y.profiles[t],
            );
        assert(a.contains(g) && a.contains(h) && b.contains(g) && b.contains(h));
        grant_order_is_total(g.mark, h.mark);
        assert(g == h);
    } else if exists|g: Grant<R>| #[trigger] b.contains(g) && g.target == t {
        let some = choose|g: Grant<R>| #[trigger] b.contains(g) && g.target == t;
        assert(a.contains(some));
    }
}

/// Two lists of the same grants, in whatever order and however often repeated,
/// come to the same: provided that every grant can be read and that the grants
/// of a client have different names.
pub proof fn grants_converge<R>(a: Seq<Grant<R>>, b: Seq<Grant<R>>)
    requires
        forall|g: Grant<R>| #[trigger] a.contains(g) == b.contains(g),
        forall|g: Grant<R>| #[trigger] a.contains(g) ==> g.profile is Some,
        forall|g: Grant<R>, h: Grant<R>| #[trigger]
            a.contains(g) && #[trigger] a.contains(h) && g.target == h.target && g.mark == h.mark
                ==> g == h,
    ensures
        after_grants(no_grants::<R>(), a) == after_grants(no_grants::<R>(), b),
{
    let x = after_grants(no_grants::<R>(), a);
    let y = after_grants(no_grants::<R>(), b);
    assert forall|t: Seq<char>| #[trigger]
        x.applied.contains_key(t) == y.applied.contains_key(t) && (x.applied.contains_key(t)
            ==> x.applied[t] == y.applied[t]) by {
        lemma_grants_agree(a, b, t);
    }
    assert(x.applied =~= y.applied);
    assert forall|t: Seq<char>| #[trigger]
        x.profiles.contains_key(t) == y.profiles.contains_key(t) && (x.profiles.contains_key(t)
            ==> x.profiles[t] == y.profiles[t]) by {
        lemma_grants_agree(a, b, t);
    }
    assert(x.profiles =~= y.profiles);
}

} // verus!
