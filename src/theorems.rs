//! What holds of every Merkle tree the builder makes, stated over the model.
use crate::digest::hash;
use crate::model::{
    leaves_of_blocks, leaves_of_digests, merkle_root, merkle_tree, merkle_tree_of_digests,
    pair_up, partner, reduce, MerkleTree,
};
use vstd::prelude::*;

verus! {

/// Two different byte strings with the same SHA-256 digest exist.
pub open spec fn sha256_collision_exists() -> bool {
    exists|x: Seq<u8>, y: Seq<u8>| x != y && #[trigger] hash(x) == #[trigger] hash(y)
}

/// `blocks` with the blocks at positions `i` and `j` exchanged.
pub open spec fn swap_blocks(blocks: Seq<Seq<u8>>, i: int, j: int) -> Seq<Seq<u8>> {
    blocks.update(i, blocks[j]).update(j, blocks[i])
}

/// `blocks` with bit `bit` of byte `k` of block `i` inverted.
pub open spec fn flip_bit(blocks: Seq<Seq<u8>>, i: int, k: int, bit: u8) -> Seq<Seq<u8>> {
    blocks.update(i, blocks[i].update(k, blocks[i][k] ^ (1u8 << bit)))
}

/// Every tree of the level carries a digest of 32 bytes.
pub open spec fn fixed_length_digests(level: Seq<MerkleTree>) -> bool {
    forall|i: int| 0 <= i < level.len() ==> (#[trigger] level[i]).digest().len() == 32
}

/// Building twice from the same blocks gives the same tree, and so the same
/// root digest.
pub proof fn lemma_deterministic(a: Seq<Seq<u8>>, b: Seq<Seq<u8>>)
    requires
        a.len() == b.len(),
        forall|i: int| 0 <= i < a.len() ==> a[i] == b[i],
    ensures
        merkle_tree(a) == merkle_tree(b),
        merkle_root(a) == merkle_root(b),
{
    assert(a =~= b);
}

/// The tree of a single block is the leaf of that block: its root digest is
/// the block's hash, with no combination step.
pub proof fn lemma_single_block(block: Seq<u8>)
    ensures
        merkle_tree(seq![block]) == MerkleTree::Leaf(hash(block)),
        merkle_root(seq![block]) == hash(block),
{
}

/// With three blocks the last leaf is paired with itself:
/// the root is `H(H(H(b1) ++ H(b2)) ++ H(H(b3) ++ H(b3)))`.
pub proof fn lemma_three_blocks(b1: Seq<u8>, b2: Seq<u8>, b3: Seq<u8>)
    ensures
        merkle_root(seq![b1, b2, b3]) == hash(
            hash(hash(b1) + hash(b2)) + hash(hash(b3) + hash(b3)),
        ),
{
    let leaves = leaves_of_blocks(seq![b1, b2, b3]);
    let up = pair_up(leaves);
    let top = pair_up(up);
    assert(leaves[0] == MerkleTree::Leaf(hash(b1)));
    assert(leaves[1] == MerkleTree::Leaf(hash(b2)));
    assert(leaves[2] == MerkleTree::Leaf(hash(b3)));
    assert(up[0].digest() == hash(hash(b1) + hash(b2)));
    assert(up[1].digest() == hash(hash(b3) + hash(b3)));
    assert(top.len() == 1);
    assert(reduce(leaves) == reduce(up));
    assert(reduce(up) == reduce(top));
    assert(reduce(top) == top[0]);
}

/// With four blocks the leaves are paired in order:
/// the root is `H(H(H(b1) ++ H(b2)) ++ H(H(b3) ++ H(b4)))`.
pub proof fn lemma_four_blocks(b1: Seq<u8>, b2: Seq<u8>, b3: Seq<u8>, b4: Seq<u8>)
    ensures
        merkle_root(seq![b1, b2, b3, b4]) == hash(
            hash(hash(b1) + hash(b2)) + hash(hash(b3) + hash(b4)),
        ),
{
    let leaves = leaves_of_blocks(seq![b1, b2, b3, b4]);
    let up = pair_up(leaves);
    let top = pair_up(up);
    assert(leaves[0] == MerkleTree::Leaf(hash(b1)));
    assert(leaves[1] == MerkleTree::Leaf(hash(b2)));
    assert(leaves[2] == MerkleTree::Leaf(hash(b3)));
    assert(leaves[3] == MerkleTree::Leaf(hash(b4)));
    assert(up[0].digest() == hash(hash(b1) + hash(b2)));
    assert(up[1].digest() == hash(hash(b3) + hash(b4)));
    assert(top.len() == 1);
    assert(reduce(leaves) == reduce(up));
    assert(reduce(up) == reduce(top));
    assert(reduce(top) == top[0]);
}

/// Building from raw blocks gives the same tree as building from their
/// digests computed beforehand and taken as leaves without hashing again.
pub proof fn lemma_prehashed_equivalence(blocks: Seq<Seq<u8>>)
    ensures
        merkle_tree(blocks) == merkle_tree_of_digests(blocks.map_values(|b: Seq<u8>| hash(b))),
{
    assert(leaves_of_blocks(blocks) =~= leaves_of_digests(
        blocks.map_values(|b: Seq<u8>| hash(b)),
    ));
}

/// Two levels of one length that differ in the digest at position `k` but
/// reduce to the same root digest exhibit a SHA-256 collision.
proof fn lemma_levels_equal_roots(l1: Seq<MerkleTree>, l2: Seq<MerkleTree>, k: int)
    requires
        l1.len() == l2.len(),
        0 <= k < l1.len(),
        l1[k].digest() != l2[k].digest(),
        fixed_length_digests(l1),
        fixed_length_digests(l2),
        reduce(l1).digest() == reduce(l2).digest(),
    ensures
        sha256_collision_exists(),
    decreases l1.len(),
{
    if l1.len() > 1 {
        let p1 = pair_up(l1);
        let p2 = pair_up(l2);
        let i = k / 2;
        let x1 = l1[2 * i].digest() + partner(l1, i).digest();
        let x2 = l2[2 * i].digest() + partner(l2, i).digest();
        assert(p1[i].digest() == hash(x1));
        assert(p2[i].digest() == hash(x2));
        assert(fixed_length_digests(p1));
        assert(fixed_length_digests(p2));
        if hash(x1) != hash(x2) {
            lemma_levels_equal_roots(p1, p2, i);
        } else if x1 != x2 {
            assert(x1 != x2 && hash(x1) == hash(x2));
        } else {
            assert(l1[2 * i].digest() =~= x1.subrange(0, 32));
            assert(l2[2 * i].digest() =~= x2.subrange(0, 32));
            assert(partner(l1, i).digest() =~= x1.subrange(32, 64));
            assert(partner(l2, i).digest() =~= x2.subrange(32, 64));
        }
    }
}

/// Two block sequences of one length that differ but have the same root
/// digest exhibit a SHA-256 collision: as long as none is known, different
/// inputs give different roots.
pub proof fn lemma_equal_roots_give_collision(a: Seq<Seq<u8>>, b: Seq<Seq<u8>>)
    requires
        a.len() == b.len(),
        a != b,
        merkle_root(a) == merkle_root(b),
    ensures
        sha256_collision_exists(),
{
    if forall|i: int| 0 <= i < a.len() ==> a[i] == b[i] {
        assert(a =~= b);
    }
    let k = choose|k: int| 0 <= k < a.len() && a[k] != b[k];
    let la = leaves_of_blocks(a);
    let lb = leaves_of_blocks(b);
    if hash(a[k]) == hash(b[k]) {
        assert(a[k] != b[k] && hash(a[k]) == hash(b[k]));
    } else {
        assert(la[k].digest() != lb[k].digest());
        lemma_levels_equal_roots(la, lb, k);
    }
}

/// Exchanging two different blocks changes the root digest, unless a SHA-256
/// collision exists.
pub proof fn lemma_swap_changes_root(blocks: Seq<Seq<u8>>, i: int, j: int)
    requires
        0 <= i < blocks.len(),
        0 <= j < blocks.len(),
        blocks[i] != blocks[j],
    ensures
        merkle_root(swap_blocks(blocks, i, j)) != merkle_root(blocks) || sha256_collision_exists(),
{
    let s = swap_blocks(blocks, i, j);
    assert(s[j] != blocks[j]);
    if merkle_root(s) == merkle_root(blocks) {
        lemma_equal_roots_give_collision(s, blocks);
    }
}

/// Inverting a single bit of one block changes the root digest, unless a
/// SHA-256 collision exists.
pub proof fn lemma_bit_flip_changes_root(blocks: Seq<Seq<u8>>, i: int, k: int, bit: u8)
    requires
        0 <= i < blocks.len(),
        0 <= k < blocks[i].len(),
        bit < 8,
    ensures
        merkle_root(flip_bit(blocks, i, k, bit)) != merkle_root(blocks) || sha256_collision_exists(),
{
    let s = flip_bit(blocks, i, k, bit);
    let x = blocks[i][k];
    assert(x ^ (1u8 << bit) != x) by (bit_vector)
        requires
            bit < 8,
    ;
    assert(s[i][k] != blocks[i][k]);
    if merkle_root(s) == merkle_root(blocks) {
        lemma_equal_roots_give_collision(s, blocks);
    }
}

} // verus!
