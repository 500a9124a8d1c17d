//! Events that the service sends.

use vstd::prelude::*;

#[allow(unused_imports)]
use crate::crypto::tag_views;
#[allow(unused_imports)]
use crate::text::texts;

verus! {

/// The kind of the event that tells what the wallet can do.
pub const WALLET_INFO_KIND: u16 = 13194;

/// The kind of the events that carry wallet requests.
pub const WALLET_REQUEST_KIND: u16 = 23194;

/// The kind of the events that carry answers to wallet requests.
pub const WALLET_RESPONSE_KIND: u16 = 23195;

/// The kind of the wallet notifications under the older encryption.
pub const NWC_NOTIFICATION_KIND_NIP04: u16 = 23196;

/// The kind of the wallet notifications under the newer encryption.
pub const NWC_NOTIFICATION_KIND_NIP44: u16 = 23197;

/// The kind of the notifications of the node.
pub const NNC_NOTIFICATION_KIND: u16 = 23200;

/// The kind of the events that grant access.
pub const GRANT_KIND: u16 = 30078;

/// An event before it is signed.
#[derive(Debug)]
pub struct EventDraft<S = String, T = Vec<Vec<String>>> {
    pub kind: u16,
    pub content: S,
    pub tags: T,
}

impl View for EventDraft {
    type V = EventDraft<Seq<char>, Seq<Seq<Seq<char>>>>;

    open spec fn view(&self) -> Self::V {
        EventDraft { kind: self.kind, content: self.content@, tags: tag_views(self.tags@) }
    }
}

/// A tag with a name and a value.
pub fn tag(name: String, value: String) -> (out: Vec<String>)
    ensures
        texts(out@) == seq![name@, value@],
{
    let mut out: Vec<String> = Vec::new();
    out.push(name);
    out.push(value);
    assert(texts(out@) =~= seq![name@, value@]);
    out
}

/// Pushing a tag pushes its texts.
pub proof fn lemma_tags_push(tags: Seq<Vec<String>>, t: Vec<String>)
    ensures
        tag_views(tags.push(t)) == tag_views(tags).push(texts(t@)),
{
    assert(tag_views(tags.push(t)) =~= tag_views(tags).push(texts(t@)));
}

} // verus!
