//! The mathematical model of a Merkle tree and of its level-by-level
//! construction.
use crate::digest::hash;
use vstd::prelude::*;

verus! {

/// A Merkle tree as a mathematical value: a leaf holds a digest taken from
/// outside data; an internal node holds a digest and exactly two children.
pub enum MerkleTree {
    Leaf(Seq<u8>),
    Internal(Seq<u8>, Box<MerkleTree>, Box<MerkleTree>),
}

impl MerkleTree {
    /// The digest stored at the top of the tree.
    pub open spec fn digest(self) -> Seq<u8> {
        match self {
            MerkleTree::Leaf(d) => d,
            MerkleTree::Internal(d, _, _) => d,
        }
    }

    /// Every internal node's digest is the hash of its left child's digest
    /// followed by its right child's digest.
    pub open spec fn well_formed(self) -> bool
        decreases self,
    {
        match self {
            MerkleTree::Leaf(_) => true,
            MerkleTree::Internal(d, l, r) => {
                &&& d == hash(l.digest() + r.digest())
                &&& l.well_formed()
                &&& r.well_formed()
            },
        }
    }
}

/// The internal node with children `l` and `r`.
pub open spec fn combine(l: MerkleTree, r: MerkleTree) -> MerkleTree {
    MerkleTree::Internal(hash(l.digest() + r.digest()), Box::new(l), Box::new(r))
}

/// The partner of position `2 * i` in a level: the next node, or the node
/// itself when it is the last of a level of odd length.
pub open spec fn partner(level: Seq<MerkleTree>, i: int) -> MerkleTree {
    if 2 * i + 1 < level.len() {
        level[2 * i + 1]
    } else {
        level[2 * i]
    }
}

/// The level above `level`: consecutive pairs combined in order, with an
/// unpaired last node combined with itself.
pub open spec fn pair_up(level: Seq<MerkleTree>) -> Seq<MerkleTree> {
    Seq::new(
        ((level.len() + 1) / 2) as nat,
        |i: int| combine(level[2 * i], partner(level, i)),
    )
}

/// The root reached by pairing up levels until one node is left.
pub open spec fn reduce(level: Seq<MerkleTree>) -> MerkleTree
    recommends
        level.len() >= 1,
    decreases level.len(),
{
    if level.len() <= 1 {
        level[0]
    } else {
        reduce(pair_up(level))
    }
}

/// The leaves for raw blocks: one leaf per block, holding the block's hash.
pub open spec fn leaves_of_blocks(blocks: Seq<Seq<u8>>) -> Seq<MerkleTree> {
    blocks.map_values(|b: Seq<u8>| MerkleTree::Leaf(hash(b)))
}

/// The leaves for digests computed beforehand: one leaf per digest, as given.
pub open spec fn leaves_of_digests(digests: Seq<Seq<u8>>) -> Seq<MerkleTree> {
    digests.map_values(|d: Seq<u8>| MerkleTree::Leaf(d))
}

/// The Merkle tree of a non-empty sequence of raw blocks.
pub open spec fn merkle_tree(blocks: Seq<Seq<u8>>) -> MerkleTree {
    reduce(leaves_of_blocks(blocks))
}

/// The Merkle tree of a non-empty sequence of digests taken as leaves.
pub open spec fn merkle_tree_of_digests(digests: Seq<Seq<u8>>) -> MerkleTree {
    reduce(leaves_of_digests(digests))
}

/// The root digest of a non-empty sequence of raw blocks.
pub open spec fn merkle_root(blocks: Seq<Seq<u8>>) -> Seq<u8> {
    merkle_tree(blocks).digest()
}

/// A level whose trees are all well formed.
pub open spec fn all_well_formed(level: Seq<MerkleTree>) -> bool {
    forall|i: int| 0 <= i < level.len() ==> (#[trigger] level[i]).well_formed()
}

/// Pairing up keeps every tree of the level well formed.
pub proof fn lemma_pair_up_well_formed(level: Seq<MerkleTree>)
    requires
        all_well_formed(level),
    ensures
        all_well_formed(pair_up(level)),
{
    assert forall|i: int| 0 <= i < pair_up(level).len() implies (#[trigger] pair_up(
        level,
    )[i]).well_formed() by {
        assert(level[2 * i].well_formed());
        assert(partner(level, i).well_formed());
    }
}

/// The root of a level of well-formed trees is well formed.
pub proof fn lemma_reduce_well_formed(level: Seq<MerkleTree>)
    requires
        level.len() >= 1,
        all_well_formed(level),
    ensures
        reduce(level).well_formed(),
    decreases level.len(),
{
    if level.len() > 1 {
        lemma_pair_up_well_formed(level);
        lemma_reduce_well_formed(pair_up(level));
    }
}

} // verus!
