//! The part of the network that the node has heard of.

use vstd::prelude::*;

#[allow(unused_imports)]
use crate::lightning::hex::hex_text;
use crate::lightning::hex::hex_string;

verus! {

/// A node's public key in its compressed form.
#[derive(Debug, Clone, Copy)]
pub struct NodeId {
    pub bytes: [u8; 33],
}

/// Whether two ids are the same.
pub fn same_node(a: &NodeId, b: &NodeId) -> (same: bool)
    ensures
        same == (*a == *b),
{
    let mut i: usize = 0;
    while i < 33
        invariant
            i <= 33,
            forall|k: int| 0 <= k < i ==> a.bytes[k] == b.bytes[k],
        decreases 33 - i,
    {
        if a.bytes[i] != b.bytes[i] {
            return false;
        }
        i += 1;
    }
    assert(a.bytes =~= b.bytes);
    true
}

/// The text of an id: its bytes in hexadecimal.
pub open spec fn node_text(id: NodeId) -> Seq<char> {
    hex_text(id.bytes@)
}

impl NodeId {
    /// The text of the id: its bytes in hexadecimal.
    pub fn to_string(&self) -> (out: String)
        ensures
            out@ == node_text(*self),
    {
        hex_string(self.bytes.as_slice())
    }
}

/// What one side of a channel asks for forwarding over it.
#[derive(Debug, Clone, Copy)]
pub struct ChannelPolicy {
    pub base_msat: u32,
    pub proportional_millionths: u32,
    pub htlc_minimum_msat: u64,
    pub htlc_maximum_msat: u64,
    pub cltv_expiry_delta: u16,
    pub enabled: bool,
    pub last_update: u32,
}

/// A channel between two nodes, with the policy of each side if it is known.
#[derive(Debug, Clone, Copy)]
pub struct GraphChannel {
    pub scid: u64,
    pub node_one: NodeId,
    pub node_two: NodeId,
    pub capacity_sats: Option<u64>,
    pub one_to_two: Option<ChannelPolicy>,
    pub two_to_one: Option<ChannelPolicy>,
}

} // verus!
