//! The root of a fixed-depth Merkle tree over a bounded list of leaves.
//!
//! The leaves are padded on the right with the zero digest up to the width of
//! the tree; each round then replaces the level by the hashes of its adjacent
//! pairs, until one node is left.
use crate::field::{is_field_element, lemma_zero_digest_in_field, zero_digest};
use crate::poseidon::{hash_pair, poseidon_pair};
use vstd::prelude::*;

verus! {

/// Depth of the commitment tree.
pub const MERKLE_DEPTH: usize = 5;

/// Number of leaves that the commitment tree holds: two to the power of its
/// depth.
pub const MAX_LEAVES: usize = 32;

/// Number of leaves of a tree of the given depth.
pub open spec fn tree_width(depth: nat) -> nat
    decreases depth,
{
    if depth == 0 {
        1
    } else {
        2 * tree_width((depth - 1) as nat)
    }
}

/// The bottom level of a tree of the given depth: the leaves, followed by
/// zero digests up to the tree's width. Leaves beyond the width have no
/// place in the tree.
pub open spec fn pad_leaves(leaves: Seq<Seq<u8>>, depth: nat) -> Seq<Seq<u8>> {
    Seq::new(
        tree_width(depth),
        |i: int|
            if i < leaves.len() {
                leaves[i]
            } else {
                zero_digest()
            },
    )
}

/// The level above `level`: the hash of each adjacent pair, a missing right
/// sibling standing for the zero digest.
pub open spec fn hash_level(level: Seq<Seq<u8>>) -> Seq<Seq<u8>> {
    Seq::new(
        (level.len() + 1) / 2,
        |i: int|
            poseidon_pair(
                level[2 * i],
                if 2 * i + 1 < level.len() {
                    level[2 * i + 1]
                } else {
                    zero_digest()
                },
            ),
    )
}

/// The level reached from `level` after the given number of rounds.
pub open spec fn hash_up(level: Seq<Seq<u8>>, rounds: nat) -> Seq<Seq<u8>>
    decreases rounds,
{
    if rounds == 0 {
        level
    } else {
        hash_up(hash_level(level), (rounds - 1) as nat)
    }
}

/// The root of the tree of the given depth over `leaves`.
pub open spec fn tree_root(leaves: Seq<Seq<u8>>, depth: nat) -> Seq<u8> {
    hash_up(pad_leaves(leaves, depth), depth)[0]
}

/// The node reached from `node` after `levels` further levels, when `node` is
/// the leftmost node of its level and every other node of that level equals
/// `sibling`.
pub open spec fn climb(node: Seq<u8>, sibling: Seq<u8>, levels: nat) -> Seq<u8>
    decreases levels,
{
    if levels == 0 {
        node
    } else {
        climb(poseidon_pair(node, sibling), poseidon_pair(sibling, sibling), (levels - 1) as nat)
    }
}

/// The root of a tree whose only leaf is `leaf`: at each level the running
/// node is hashed with the root of an empty subtree of that height.
pub open spec fn single_leaf_root(leaf: Seq<u8>, depth: nat) -> Seq<u8> {
    climb(leaf, zero_digest(), depth)
}

/// The digest reached from `leaf` by hashing it with the zero digest on its
/// right the given number of times.
pub open spec fn hash_with_zero(leaf: Seq<u8>, times: nat) -> Seq<u8>
    decreases times,
{
    if times == 0 {
        leaf
    } else {
        poseidon_pair(hash_with_zero(leaf, (times - 1) as nat), zero_digest())
    }
}

/// A tree has at least one leaf.
pub proof fn lemma_tree_width_positive(depth: nat)
    ensures
        tree_width(depth) >= 1,
    decreases depth,
{
    if depth > 0 {
        lemma_tree_width_positive((depth - 1) as nat);
    }
}

/// A level that is uniform but for its first node hashes up to `climb`.
proof fn lemma_hash_up_uniform(level: Seq<Seq<u8>>, first: Seq<u8>, filler: Seq<u8>, depth: nat)
    requires
        level.len() == tree_width(depth),
        level[0] == first,
        forall|j: int| 1 <= j < level.len() ==> level[j] == filler,
    ensures
        hash_up(level, depth)[0] == climb(first, filler, depth),
    decreases depth,
{
    if depth > 0 {
        lemma_tree_width_positive((depth - 1) as nat);
        let next = hash_level(level);
        assert(next.len() == tree_width((depth - 1) as nat));
        assert(next[0] == poseidon_pair(first, filler));
        assert forall|j: int| 1 <= j < next.len() implies next[j] == poseidon_pair(
            filler,
            filler,
        ) by {
            assert(level[2 * j] == filler);
            assert(level[2 * j + 1] == filler);
        }
        lemma_hash_up_uniform(
            next,
            poseidon_pair(first, filler),
            poseidon_pair(filler, filler),
            (depth - 1) as nat,
        );
    }
}

/// The root over a single leaf is that leaf hashed, level by level, with the
/// root of the empty subtree beside it.
pub proof fn lemma_single_leaf_root(leaf: Seq<u8>, depth: nat)
    ensures
        tree_root(seq![leaf], depth) == single_leaf_root(leaf, depth),
{
    lemma_tree_width_positive(depth);
    lemma_hash_up_uniform(pad_leaves(seq![leaf], depth), leaf, zero_digest(), depth);
}

/// In a tree of depth at most one, the root over a single leaf is that leaf
/// hashed with the zero digest once for each level.
pub proof fn lemma_single_leaf_zero_chain(leaf: Seq<u8>, depth: nat)
    requires
        depth <= 1,
    ensures
        tree_root(seq![leaf], depth) == hash_with_zero(leaf, depth),
{
    lemma_single_leaf_root(leaf, depth);
    reveal_with_fuel(climb, 2);
    reveal_with_fuel(hash_with_zero, 2);
}

/// The byte strings that a list of nodes holds.
pub open spec fn digests(nodes: Seq<[u8; 32]>) -> Seq<Seq<u8>> {
    Seq::new(nodes.len(), |i: int| nodes[i]@)
}

/// Every node of the list is a field element.
pub open spec fn all_in_field(nodes: Seq<[u8; 32]>) -> bool {
    forall|i: int| 0 <= i < nodes.len() ==> is_field_element(#[trigger] nodes[i]@)
}

/// The zero leaf that pads the tree.
pub fn zero_leaf() -> (leaf: [u8; 32])
    ensures
        leaf@ == zero_digest(),
        is_field_element(leaf@),
{
    let leaf = [0u8; 32];
    proof {
        assert(leaf@ =~= zero_digest());
        lemma_zero_digest_in_field();
    }
    leaf
}

/// Hashes one level of the tree into the level above it.
pub fn hash_level_nodes(level: &Vec<[u8; 32]>) -> (next: Vec<[u8; 32]>)
    requires
        all_in_field(level@),
    ensures
        digests(next@) == hash_level(digests(level@)),
        next.len() == (level.len() + 1) / 2,
        all_in_field(next@),
{
    let pairs = level.len() / 2 + level.len() % 2;
    let mut next: Vec<[u8; 32]> = Vec::new();
    let mut k: usize = 0;
    while k < pairs
        invariant
            all_in_field(level@),
            all_in_field(next@),
            pairs == (level.len() + 1) / 2,
            k <= pairs,
            next.len() == k,
            forall|j: int|
                0 <= j < next.len() ==> (#[trigger] next@[j])@ == hash_level(digests(level@))[j],
        decreases pairs - k,
    {
        let left = level[2 * k];
        let right = if 2 * k + 1 < level.len() {
            level[2 * k + 1]
        } else {
            zero_leaf()
        };
        let parent = hash_pair(left, right);
        next.push(parent);
        k += 1;
    }
    proof {
        assert(digests(next@) =~= hash_level(digests(level@)));
    }
    next
}

/// Computes the root of the commitment tree over the first `count` leaves.
pub fn compute_merkle_root(leaves: &[[u8; 32]; MAX_LEAVES], count: usize) -> (root: [u8; 32])
    requires
        count <= MAX_LEAVES,
        all_in_field(leaves@.take(count as int)),
    ensures
        root@ == tree_root(digests(leaves@.take(count as int)), MERKLE_DEPTH as nat),
        is_field_element(root@),
{
    let ghost committed = digests(leaves@.take(count as int));
    let mut level: Vec<[u8; 32]> = Vec::new();
    let mut i: usize = 0;
    while i < count
        invariant
            i <= count <= MAX_LEAVES,
            level.len() == i,
            all_in_field(leaves@.take(count as int)),
            forall|j: int| 0 <= j < i ==> level@[j] == leaves@[j],
        decreases count - i,
    {
        level.push(leaves[i]);
        i += 1;
    }
    while level.len() < MAX_LEAVES
        invariant
            count <= level.len() <= MAX_LEAVES,
            forall|j: int| 0 <= j < count ==> level@[j] == leaves@[j],
            forall|j: int| count <= j < level.len() ==> (#[trigger] level@[j])@ == zero_digest(),
        decreases MAX_LEAVES - level.len(),
    {
        level.push(zero_leaf());
    }
    proof {
        reveal_with_fuel(tree_width, 6);
        assert(digests(level@) =~= pad_leaves(committed, MERKLE_DEPTH as nat));
        lemma_zero_digest_in_field();
        assert forall|j: int| 0 <= j < level@.len() implies is_field_element(
            #[trigger] level@[j]@,
        ) by {
            if j < count {
                assert(level@[j] == leaves@.take(count as int)[j]);
            }
        }
    }
    let mut round: usize = 0;
    while round < MERKLE_DEPTH
        invariant
            round <= MERKLE_DEPTH,
            all_in_field(level@),
            level.len() == tree_width((MERKLE_DEPTH - round) as nat),
            hash_up(digests(level@), (MERKLE_DEPTH - round) as nat) == hash_up(
                pad_leaves(committed, MERKLE_DEPTH as nat),
                MERKLE_DEPTH as nat,
            ),
        decreases MERKLE_DEPTH - round,
    {
        assert(tree_width((MERKLE_DEPTH - round) as nat) == 2 * tree_width(
            (MERKLE_DEPTH - round - 1) as nat,
        ));
        level = hash_level_nodes(&level);
        round += 1;
    }
    level[0]
}

} // verus!
