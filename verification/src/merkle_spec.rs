//! The mathematical model of the outbox accumulator: a binary hash tree of
//! fixed depth over the committed leaves, with every missing leaf zero.

use vstd::prelude::*;
use crate::hashing::keccak256_digest;
use crate::primitives::zero_word;

verus! {

/// The hash of an inner node with the given children.
pub open spec fn hash_pair(left: Seq<u8>, right: Seq<u8>) -> Seq<u8> {
    keccak256_digest(left + right)
}

/// The root of a subtree of the given height that holds no leaf.
pub open spec fn zero_hash(height: nat) -> Seq<u8>
    decreases height,
{
    if height == 0 {
        zero_word()
    } else {
        hash_pair(zero_hash((height - 1) as nat), zero_hash((height - 1) as nat))
    }
}

/// The node at `height` above the leaves and at position `idx` within its
/// level, counted from the left. Level 0 holds the leaves themselves.
pub open spec fn node(leaves: Seq<Seq<u8>>, height: nat, idx: nat) -> Seq<u8>
    decreases height,
{
    if height == 0 {
        if idx < leaves.len() {
            leaves[idx as int]
        } else {
            zero_word()
        }
    } else {
        hash_pair(
            node(leaves, (height - 1) as nat, 2 * idx),
            node(leaves, (height - 1) as nat, 2 * idx + 1),
        )
    }
}

/// The root of the depth-32 tree over `leaves`.
pub open spec fn tree_root(leaves: Seq<Seq<u8>>) -> Seq<u8> {
    node(leaves, 32, 0)
}

/// The position at `height` of the ancestor of the level-0 position `idx`:
/// `idx` halved `height` times.
pub open spec fn ancestor(idx: nat, height: nat) -> nat
    decreases height,
{
    if height == 0 {
        idx
    } else {
        ancestor(idx, (height - 1) as nat) / 2
    }
}

/// How many nodes at `height` have a leaf below them when there are `len`
/// leaves.
pub open spec fn width(len: nat, height: nat) -> nat
    decreases height,
{
    if height == 0 {
        len
    } else {
        (width(len, (height - 1) as nat) + 1) / 2
    }
}

/// The position of the other child of a node's parent.
pub open spec fn sibling(idx: nat) -> nat {
    if idx % 2 == 0 {
        idx + 1
    } else {
        (idx - 1) as nat
    }
}

/// What a path of siblings yields when replayed from `cur`, which stands at
/// position `idx` of its level: at each step the running hash is paired with
/// the next sibling, on the side that the position's parity gives.
pub open spec fn climb(cur: Seq<u8>, idx: nat, path: Seq<Seq<u8>>) -> Seq<u8>
    decreases path.len(),
{
    if path.len() == 0 {
        cur
    } else {
        let next = if idx % 2 == 1 {
            hash_pair(path[0], cur)
        } else {
            hash_pair(cur, path[0])
        };
        climb(next, idx / 2, path.drop_first())
    }
}

/// The sibling path of leaf `idx`: at each height the node beside the
/// leaf's ancestor.
pub open spec fn sibling_path(leaves: Seq<Seq<u8>>, idx: nat) -> Seq<Seq<u8>> {
    Seq::new(32, |k: int| node(leaves, k as nat, sibling(ancestor(idx, k as nat))))
}

/// Halving first and then taking the ancestor is taking the next ancestor.
pub proof fn lemma_ancestor_of_half(idx: nat, height: nat)
    ensures
        ancestor(idx / 2, height) == ancestor(idx, height + 1),
    decreases height,
{
    if height > 0 {
        lemma_ancestor_of_half(idx, (height - 1) as nat);
    } else {
        assert(ancestor(idx, 0) == idx);
    }
}

/// Every ancestor of position 0 is position 0.
pub proof fn lemma_ancestor_zero(height: nat)
    ensures
        ancestor(0, height) == 0,
    decreases height,
{
    if height > 0 {
        lemma_ancestor_zero((height - 1) as nat);
    }
}

/// Two positions whose ancestors agree at one height have the same
/// ancestors above it.
pub proof fn lemma_ancestor_agree(a: nat, b: nat, low: nat, high: nat)
    requires
        ancestor(a, low) == ancestor(b, low),
        low <= high,
    ensures
        ancestor(a, high) == ancestor(b, high),
    decreases high,
{
    if high > low {
        lemma_ancestor_agree(a, b, low, (high - 1) as nat);
    }
}

/// Two to the power `bits`.
pub open spec fn two_to(bits: nat) -> nat
    decreases bits,
{
    if bits == 0 {
        1
    } else {
        2 * two_to((bits - 1) as nat)
    }
}

/// 2^32, written out.
pub proof fn lemma_two_to_32()
    ensures
        two_to(32) == 0x1_0000_0000,
{
    reveal_with_fuel(two_to, 33);
}

/// A position below `2^bits` has its ancestor at `height` below
/// `2^(bits - height)`.
pub proof fn lemma_ancestor_bound(idx: nat, height: nat, bits: nat)
    requires
        idx < two_to(bits),
        height <= bits,
    ensures
        ancestor(idx, height) < two_to((bits - height) as nat),
    decreases height,
{
    if height > 0 {
        lemma_ancestor_bound(idx, (height - 1) as nat, bits);
    }
}

/// A position below 2^32 has position 0 as its ancestor at height 32.
pub proof fn lemma_ancestor_top(idx: nat)
    requires
        idx < 0x1_0000_0000,
    ensures
        ancestor(idx, 32) == 0,
{
    lemma_two_to_32();
    lemma_ancestor_bound(idx, 32, 32);
}

/// A node with no leaf below it is the zero hash of its height.
pub proof fn lemma_empty_node(leaves: Seq<Seq<u8>>, height: nat, idx: nat)
    requires
        idx >= width(leaves.len(), height),
    ensures
        node(leaves, height, idx) == zero_hash(height),
    decreases height,
{
    if height > 0 {
        lemma_empty_node(leaves, (height - 1) as nat, 2 * idx);
        lemma_empty_node(leaves, (height - 1) as nat, 2 * idx + 1);
    }
}

/// The nodes with a leaf below them reach at most one position past the
/// ancestor of the leaf count.
pub proof fn lemma_width_bound(len: nat, height: nat)
    ensures
        ancestor(len, height) <= width(len, height) <= ancestor(len, height) + 1,
    decreases height,
{
    if height > 0 {
        lemma_width_bound(len, (height - 1) as nat);
    }
}

/// With one more leaf than `len`, the nodes with a leaf below them reach
/// exactly one position past the ancestor of `len`.
pub proof fn lemma_width_of_successor(len: nat, height: nat)
    ensures
        width(len + 1, height) == ancestor(len, height) + 1,
    decreases height,
{
    if height > 0 {
        lemma_width_of_successor(len, (height - 1) as nat);
    }
}

/// A node depends only on the leaves below it: two leaf sequences that agree
/// on a prefix agree on every node that lies wholly within that prefix.
pub proof fn lemma_node_prefix(a: Seq<Seq<u8>>, b: Seq<Seq<u8>>, n: nat, height: nat, idx: nat)
    requires
        n <= a.len(),
        n <= b.len(),
        forall|i: int| 0 <= i < n ==> a[i] == b[i],
        idx < ancestor(n, height),
    ensures
        node(a, height, idx) == node(b, height, idx),
    decreases height,
{
    if height > 0 {
        lemma_node_prefix(a, b, n, (height - 1) as nat, 2 * idx);
        lemma_node_prefix(a, b, n, (height - 1) as nat, 2 * idx + 1);
    }
}

/// Replaying the siblings of a node's ancestors from that node yields the
/// ancestor at the top of the path.
pub proof fn lemma_climb(
    leaves: Seq<Seq<u8>>,
    height: nat,
    idx: nat,
    cur: Seq<u8>,
    path: Seq<Seq<u8>>,
)
    requires
        cur == node(leaves, height, idx),
        forall|k: int|
            0 <= k < path.len() ==> #[trigger] path[k] == node(
                leaves,
                height + k as nat,
                sibling(ancestor(idx, k as nat)),
            ),
    ensures
        climb(cur, idx, path) == node(
            leaves,
            height + path.len(),
            ancestor(idx, path.len()),
        ),
    decreases path.len(),
{
    if path.len() > 0 {
        let next = if idx % 2 == 1 {
            hash_pair(path[0], cur)
        } else {
            hash_pair(cur, path[0])
        };
        let rest = path.drop_first();
        assert(ancestor(idx, 0) == idx);
        assert(path[0] == node(leaves, height + 0 as nat, sibling(ancestor(idx, 0 as nat))));
        assert(next == node(leaves, height + 1, idx / 2));
        assert forall|k: int| 0 <= k < rest.len() implies #[trigger] rest[k] == node(
            leaves,
            (height + 1) + k as nat,
            sibling(ancestor(idx / 2, k as nat)),
        ) by {
            lemma_ancestor_of_half(idx, k as nat);
            assert(rest[k] == path[k + 1]);
        }
        lemma_climb(leaves, height + 1, idx / 2, next, rest);
        lemma_ancestor_of_half(idx, rest.len());
    }
}

/// The sibling path of any leaf of a tree, replayed from that leaf, yields
/// the tree's root.
pub proof fn law_sibling_path_replays_to_root(leaves: Seq<Seq<u8>>, idx: nat)
    requires
        idx < leaves.len(),
        leaves.len() < 0x1_0000_0000,
    ensures
        climb(leaves[idx as int], idx, sibling_path(leaves, idx)) == tree_root(leaves),
{
    lemma_climb(leaves, 0, idx, leaves[idx as int], sibling_path(leaves, idx));
    lemma_ancestor_top(idx);
}

} // verus!
