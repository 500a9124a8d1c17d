//! The order in which a search takes up its trails.

use vstd::prelude::*;

use crate::lightning::graph::NodeId;
use crate::lightning::routing::{Hop, Trail};

verus! {

/// How two values compare.
#[derive(Debug, Clone, Copy, PartialEq, Eq, Structural)]
pub enum Rank {
    Less,
    Equal,
    Greater,
}

/// The rank of two numbers.
pub open spec fn rank_number(a: int, b: int) -> Rank {
    if a < b {
        Rank::Less
    } else if a == b {
        Rank::Equal
    } else {
        Rank::Greater
    }
}

/// `first`, unless it is a tie, which `second` breaks.
pub open spec fn or_else(first: Rank, second: Rank) -> Rank {
    if first == Rank::Equal {
        second
    } else {
        first
    }
}

/// The rank of two byte strings in lexicographic order.
pub open spec fn rank_bytes(a: Seq<u8>, b: Seq<u8>) -> Rank
    decreases a.len(),
{
    if a.len() == 0 {
        if b.len() == 0 {
            Rank::Equal
        } else {
            Rank::Less
        }
    } else if b.len() == 0 {
        Rank::Greater
    } else {
        or_else(rank_number(a[0] as int, b[0] as int), rank_bytes(a.skip(1), b.skip(1)))
    }
}

/// The rank of two steps: by node, channel, fee and time lock.
pub open spec fn rank_hop(a: Hop, b: Hop) -> Rank {
    or_else(
        rank_bytes(a.node.bytes@, b.node.bytes@),
        or_else(
            rank_number(a.scid as int, b.scid as int),
            or_else(
                rank_number(a.fee as int, b.fee as int),
                rank_number(a.cltv as int, b.cltv as int),
            ),
        ),
    )
}

/// The rank of two paths in lexicographic order.
pub open spec fn rank_path(a: Seq<Hop>, b: Seq<Hop>) -> Rank
    decreases a.len(),
{
    if a.len() == 0 {
        if b.len() == 0 {
            Rank::Equal
        } else {
            Rank::Less
        }
    } else if b.len() == 0 {
        Rank::Greater
    } else {
        or_else(rank_hop(a[0], b[0]), rank_path(a.skip(1), b.skip(1)))
    }
}

/// The rank of two trails: by cost, node and path.
pub open spec fn rank_trail(a: Trail<Seq<Hop>>, b: Trail<Seq<Hop>>) -> Rank {
    or_else(
        rank_number(a.cost as int, b.cost as int),
        or_else(rank_bytes(a.node.bytes@, b.node.bytes@), rank_path(a.path, b.path)),
    )
}

proof fn lemma_rank_bytes_prefix(a: Seq<u8>, b: Seq<u8>, k: int)
    requires
        0 <= k <= a.len(),
        k <= b.len(),
        forall|i: int| 0 <= i < k ==> a[i] == b[i],
    ensures
        rank_bytes(a, b) == rank_bytes(a.skip(k), b.skip(k)),
    decreases k,
{
    if k == 0 {
        assert(a.skip(0) =~= a);
        assert(b.skip(0) =~= b);
    } else {
        assert forall|i: int| 0 <= i < k - 1 implies a.skip(1)[i] == b.skip(1)[i] by {
            assert(a[i + 1] == b[i + 1]);
        }
        lemma_rank_bytes_prefix(a.skip(1), b.skip(1), k - 1);
        assert(a.skip(1).skip(k - 1) =~= a.skip(k));
        assert(b.skip(1).skip(k - 1) =~= b.skip(k));
    }
}

proof fn lemma_rank_path_prefix(a: Seq<Hop>, b: Seq<Hop>, k: int)
    requires
        0 <= k <= a.len(),
        k <= b.len(),
        forall|i: int|
            0 <= i < k ==> rank_hop(#[trigger] a[i], b[i]) == Rank::Equal,
    ensures
        rank_path(a, b) == rank_path(a.skip(k), b.skip(k)),
    decreases k,
{
    if k == 0 {
        assert(a.skip(0) =~= a);
        assert(b.skip(0) =~= b);
    } else {
        assert(rank_hop(a[0], b[0]) == Rank::Equal);
        assert forall|i: int| 0 <= i < k - 1 implies rank_hop(#[trigger] a.skip(1)[i], b.skip(1)[i])
            == Rank::Equal by {
            assert(rank_hop(a[i + 1], b[i + 1]) == Rank::Equal);
        }
        lemma_rank_path_prefix(a.skip(1), b.skip(1), k - 1);
        assert(a.skip(1).skip(k - 1) =~= a.skip(k));
        assert(b.skip(1).skip(k - 1) =~= b.skip(k));
    }
}

fn compare_number(a: u64, b: u64) -> (rank: Rank)
    ensures
        rank == rank_number(a as int, b as int),
{
    if a < b {
        Rank::Less
    } else if a == b {
        Rank::Equal
    } else {
        Rank::Greater
    }
}

fn compare_node(a: &NodeId, b: &NodeId) -> (rank: Rank)
    ensures
        rank == rank_bytes(a.bytes@, b.bytes@),
{
    let mut i: usize = 0;
    while i < 33
        invariant
            i <= 33,
            forall|k: int| 0 <= k < i ==> a.bytes@[k] == b.bytes@[k],
        decreases 33 - i,
    {
        let x: u64 = a.bytes[i] as u64;
        let y: u64 = b.bytes[i] as u64;
        if x != y {
            proof {
                lemma_rank_bytes_prefix(a.bytes@, b.bytes@, i as int);
            }
            return compare_number(x, y);
        }
        i += 1;
    }
    proof {
        lemma_rank_bytes_prefix(a.bytes@, b.bytes@, 33);
    }
    Rank::Equal
}

fn compare_hop(a: &Hop, b: &Hop) -> (rank: Rank)
    ensures
        rank == rank_hop(*a, *b),
{
    match compare_node(&a.node, &b.node) {
        Rank::Equal => match compare_number(a.scid, b.scid) {
            Rank::Equal => match compare_number(a.fee, b.fee) {
                Rank::Equal => compare_number(a.cltv as u64, b.cltv as u64),
                other => other,
            },
            other => other,
        },
        other => other,
    }
}

fn compare_path(a: &Vec<Hop>, b: &Vec<Hop>) -> (rank: Rank)
    ensures
        rank == rank_path(a@, b@),
{
    let mut i: usize = 0;
    while i < a.len() && i < b.len()
        invariant
            i <= a.len(),
            i <= b.len(),
            forall|k: int| 0 <= k < i ==> rank_hop(#[trigger] a@[k], b@[k]) == Rank::Equal,
        decreases a.len() - i,
    {
        match compare_hop(&a[i], &b[i]) {
            Rank::Equal => {},
            other => {
                proof {
                    lemma_rank_path_prefix(a@, b@, i as int);
                }
                return other;
            },
        }
        i += 1;
    }
    proof {
        lemma_rank_path_prefix(a@, b@, i as int);
    }
    if i < b.len() {
        Rank::Less
    } else if i < a.len() {
        Rank::Greater
    } else {
        Rank::Equal
    }
}

/// Compares two trails by cost, node and path.
pub fn compare_trail(a: &Trail, b: &Trail) -> (rank: Rank)
    ensures
        rank == rank_trail(a@, b@),
{
    match compare_number(a.cost, b.cost) {
        Rank::Equal => match compare_node(&a.node, &b.node) {
            Rank::Equal => compare_path(&a.path, &b.path),
            other => other,
        },
        other => other,
    }
}

/// The rank of the same values in the other order.
pub open spec fn turned(r: Rank) -> Rank {
    match r {
        Rank::Less => Rank::Greater,
        Rank::Equal => Rank::Equal,
        Rank::Greater => Rank::Less,
    }
}

proof fn lemma_bytes_pair(a: Seq<u8>, b: Seq<u8>)
    ensures
        rank_bytes(b, a) == turned(rank_bytes(a, b)),
        rank_bytes(a, b) == Rank::Equal <==> a == b,
    decreases a.len(),
{
    if a.len() > 0 && b.len() > 0 {
        lemma_bytes_pair(a.skip(1), b.skip(1));
        assert(a =~= seq![a[0]] + a.skip(1));
        assert(b =~= seq![b[0]] + b.skip(1));
    } else if a.len() == 0 && b.len() == 0 {
        assert(a =~= b);
    }
}

proof fn lemma_bytes_order(a: Seq<u8>, b: Seq<u8>, c: Seq<u8>)
    ensures
        rank_bytes(b, a) == turned(rank_bytes(a, b)),
        rank_bytes(a, b) == Rank::Equal <==> a == b,
        rank_bytes(a, b) == Rank::Less && rank_bytes(b, c) == Rank::Less ==> rank_bytes(a, c)
            == Rank::Less,
    decreases a.len(),
{
    lemma_bytes_pair(a, b);
    if a.len() > 0 && b.len() > 0 && c.len() > 0 {
        lemma_bytes_order(a.skip(1), b.skip(1), c.skip(1));
        lemma_bytes_pair(b.skip(1), c.skip(1));
    }
}

proof fn lemma_same_bytes(a: NodeId, b: NodeId)
    ensures
        (a.bytes@ == b.bytes@) == (a == b),
{
    if a.bytes@ == b.bytes@ {
        assert(a.bytes =~= b.bytes);
    }
}

proof fn lemma_hop_order(a: Hop, b: Hop, c: Hop)
    ensures
        rank_hop(b, a) == turned(rank_hop(a, b)),
        rank_hop(a, b) == Rank::Equal <==> a == b,
        rank_hop(a, b) == Rank::Less && rank_hop(b, c) == Rank::Less ==> rank_hop(a, c)
            == Rank::Less,
{
    lemma_bytes_order(a.node.bytes@, b.node.bytes@, c.node.bytes@);
    lemma_bytes_order(b.node.bytes@, c.node.bytes@, c.node.bytes@);
    lemma_same_bytes(a.node, b.node);
    lemma_same_bytes(b.node, c.node);
}

proof fn lemma_path_pair(a: Seq<Hop>, b: Seq<Hop>)
    ensures
        rank_path(b, a) == turned(rank_path(a, b)),
        rank_path(a, b) == Rank::Equal <==> a == b,
    decreases a.len(),
{
    if a.len() > 0 && b.len() > 0 {
        lemma_path_pair(a.skip(1), b.skip(1));
        lemma_hop_order(a[0], b[0], b[0]);
        assert(a =~= seq![a[0]] + a.skip(1));
        assert(b =~= seq![b[0]] + b.skip(1));
    } else if a.len() == 0 && b.len() == 0 {
        assert(a =~= b);
    }
}

proof fn lemma_path_order(a: Seq<Hop>, b: Seq<Hop>, c: Seq<Hop>)
    ensures
        rank_path(b, a) == turned(rank_path(a, b)),
        rank_path(a, b) == Rank::Equal <==> a == b,
        rank_path(a, b) == Rank::Less && rank_path(b, c) == Rank::Less ==> rank_path(a, c)
            == Rank::Less,
    decreases a.len(),
{
    lemma_path_pair(a, b);
    if a.len() > 0 && b.len() > 0 && c.len() > 0 {
        lemma_path_order(a.skip(1), b.skip(1), c.skip(1));
        lemma_path_pair(b.skip(1), c.skip(1));
        lemma_hop_order(a[0], b[0], c[0]);
        lemma_hop_order(b[0], c[0], c[0]);
    }
}

/// The rank of trails is a total order, in which only equal trails tie.
pub proof fn rank_is_a_total_order(
    a: Trail<Seq<Hop>>,
    b: Trail<Seq<Hop>>,
    c: Trail<Seq<Hop>>,
)
    ensures
        rank_trail(b, a) == turned(rank_trail(a, b)),
        rank_trail(a, b) == Rank::Equal <==> a == b,
        rank_trail(a, b) == Rank::Less && rank_trail(b, c) == Rank::Less ==> rank_trail(a, c)
            == Rank::Less,
{
    lemma_bytes_order(a.node.bytes@, b.node.bytes@, c.node.bytes@);
    lemma_bytes_order(b.node.bytes@, c.node.bytes@, c.node.bytes@);
    lemma_same_bytes(a.node, b.node);
    lemma_same_bytes(b.node, c.node);
    lemma_path_order(a.path, b.path, c.path);
    lemma_path_order(b.path, c.path, c.path);
}

} // verus!
