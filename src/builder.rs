//! Bottom-up construction of a Merkle tree, level by level.
use crate::model::{
    leaves_of_blocks, leaves_of_digests, merkle_tree, merkle_tree_of_digests, pair_up, reduce,
    lemma_reduce_well_formed, MerkleTree,
};
use crate::node::{MerkleError, Node};
use vstd::prelude::*;

verus! {

/// The trees of a level of nodes.
pub open spec fn views(level: Seq<Node>) -> Seq<MerkleTree> {
    level.map_values(|n: Node| n@)
}

/// The byte contents of a sequence of blocks.
pub open spec fn block_views(blocks: Seq<&[u8]>) -> Seq<Seq<u8>> {
    blocks.map_values(|b: &[u8]| b@)
}

/// The byte contents of a sequence of digests.
pub open spec fn digest_views(digests: Seq<[u8; 32]>) -> Seq<Seq<u8>> {
    digests.map_values(|d: [u8; 32]| d@)
}

/// The nodes of `level` in the opposite order.
fn reversed(level: Vec<Node>) -> (r: Vec<Node>)
    ensures
        r.len() == level.len(),
        forall|j: int| 0 <= j < r.len() ==> #[trigger] r@[j] == level@[level.len() - 1 - j],
{
    let ghost s = level@;
    let mut rest = level;
    let mut r: Vec<Node> = Vec::new();
    while rest.len() > 0
        invariant
            r.len() + rest.len() == s.len(),
            rest@ == s.take(rest.len() as int),
            forall|j: int| 0 <= j < r.len() ==> #[trigger] r@[j] == s[s.len() - 1 - j],
        decreases rest.len(),
    {
        let x = rest.pop().unwrap();
        r.push(x);
        assert(rest@ =~= s.take(rest.len() as int));
    }
    r
}

/// The level above `level`: consecutive pairs combined in order, the last
/// node of an odd level combined with a copy of itself.
fn next_level(level: Vec<Node>) -> (r: Vec<Node>)
    ensures
        views(r@) == pair_up(views(level@)),
{
    let ghost s = level@;
    let ghost t = views(s);
    let n: usize = level.len();
    let mut rest = reversed(level);
    let mut out: Vec<Node> = Vec::new();
    while rest.len() > 0
        invariant
            n == s.len(),
            t == views(s),
            rest.len() <= n,
            (n - rest.len()) % 2 == 0 || rest.len() == 0,
            forall|j: int| 0 <= j < rest.len() ==> #[trigger] rest@[j] == s[n - 1 - j],
            out.len() == (n - rest.len() + 1) / 2,
            forall|i: int| 0 <= i < out.len() ==> #[trigger] out@[i]@ == pair_up(t)[i],
        decreases rest.len(),
    {
        let ghost c = n - rest.len();
        assert(rest@[rest.len() - 1] == s[c]);
        let a = rest.pop().unwrap();
        if rest.len() > 0 {
            assert(rest@[rest.len() - 1] == s[c + 1]);
            let b = rest.pop().unwrap();
            let node = Node::internal(a, b);
            assert(node@ == pair_up(t)[c / 2]);
            out.push(node);
        } else {
            let b = a.duplicate();
            let node = Node::internal(a, b);
            assert(node@ == pair_up(t)[c / 2]);
            out.push(node);
        }
    }
    assert(views(out@) =~= pair_up(t));
    out
}

/// The root reached from `level` by pairing up levels until one node is left.
fn reduce_level(level: Vec<Node>) -> (r: Node)
    requires
        level.len() >= 1,
    ensures
        r@ == reduce(views(level@)),
{
    let ghost s = views(level@);
    let mut level = level;
    while level.len() > 1
        invariant
            level.len() >= 1,
            reduce(views(level@)) == reduce(s),
        decreases level.len(),
    {
        level = next_level(level);
    }
    let root = level.pop().unwrap();
    assert(views(level@.push(root))[0] == root@);
    root
}

/// Builds the Merkle tree of `data_blocks`, hashing each block into a leaf.
/// An empty sequence is refused before anything is hashed.
pub fn build_merkle_tree(data_blocks: Vec<&[u8]>) -> (r: Result<Node, MerkleError>)
    ensures
        data_blocks.len() == 0 ==> r == Err::<Node, MerkleError>(MerkleError::EmptyInput),
        data_blocks.len() > 0 ==> r is Ok && r->Ok_0@ == merkle_tree(block_views(data_blocks@))
            && r->Ok_0@.well_formed(),
{
    if data_blocks.len() == 0 {
        return Err(MerkleError::EmptyInput);
    }
    let ghost leaves = leaves_of_blocks(block_views(data_blocks@));
    let mut level: Vec<Node> = Vec::new();
    let mut i: usize = 0;
    while i < data_blocks.len()
        invariant
            i <= data_blocks.len(),
            leaves == leaves_of_blocks(block_views(data_blocks@)),
            level.len() == i,
            forall|j: int| 0 <= j < i ==> #[trigger] level@[j]@ == leaves[j],
        decreases data_blocks.len() - i,
    {
        level.push(Node::leaf(data_blocks[i]));
        i = i + 1;
    }
    assert(views(level@) =~= leaves);
    proof {
        lemma_reduce_well_formed(leaves);
    }
    Ok(reduce_level(level))
}

/// Builds the Merkle tree whose leaves are `digests`, taken as they are:
/// the blocks were hashed beforehand, so no leaf is hashed again. An empty
/// sequence is refused.
pub fn build_merkle_tree_from_digests(digests: Vec<[u8; 32]>) -> (r: Result<Node, MerkleError>)
    ensures
        digests.len() == 0 ==> r == Err::<Node, MerkleError>(MerkleError::EmptyInput),
        digests.len() > 0 ==> r is Ok && r->Ok_0@ == merkle_tree_of_digests(digest_views(digests@))
            && r->Ok_0@.well_formed(),
{
    if digests.len() == 0 {
        return Err(MerkleError::EmptyInput);
    }
    let ghost leaves = leaves_of_digests(digest_views(digests@));
    let mut level: Vec<Node> = Vec::new();
    let mut i: usize = 0;
    while i < digests.len()
        invariant
            i <= digests.len(),
            leaves == leaves_of_digests(digest_views(digests@)),
            level.len() == i,
            forall|j: int| 0 <= j < i ==> #[trigger] level@[j]@ == leaves[j],
        decreases digests.len() - i,
    {
        level.push(Node::from_digest(digests[i]));
        i = i + 1;
    }
    assert(views(level@) =~= leaves);
    proof {
        lemma_reduce_well_formed(leaves);
    }
    Ok(reduce_level(level))
}

} // verus!
