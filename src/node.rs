//! Tree nodes: immutable owned trees whose digests are computed at
//! construction.
use crate::digest::{hash, hash_bytes, hash_pair};
use crate::hex::{hex_of, to_hex};
use crate::model::{combine, MerkleTree};
use vstd::prelude::*;

verus! {

/// Why a node or a tree could not be built.
#[derive(Debug, Clone, Copy, PartialEq, Eq, Structural)]
pub enum MerkleError {
    /// A leaf was asked for without data to hash.
    MissingLeafData,
    /// Exactly one of the two children was given.
    SingleChild,
    /// A tree was asked for over no blocks at all.
    EmptyInput,
}

/// A node of a Merkle tree. A leaf has no children; an internal node owns
/// exactly two, and its digest is the hash of their digests concatenated.
pub struct Node {
    hash: [u8; 32],
    left: Option<Box<Node>>,
    right: Option<Box<Node>>,
}

impl View for Node {
    type V = MerkleTree;

    open spec fn view(&self) -> MerkleTree {
        self.model()
    }
}

impl Node {
    /// The tree below this node as a mathematical value.
    pub closed spec fn model(&self) -> MerkleTree
        decreases self,
    {
        match (self.left, self.right) {
            (Some(l), Some(r)) => MerkleTree::Internal(self.hash@, Box::new(l.model()), Box::new(r.model())),
            _ => MerkleTree::Leaf(self.hash@),
        }
    }
}

impl Node {
    /// The leaf for one block of data: its digest is the hash of the raw
    /// bytes, with no prefix.
    pub fn leaf(data: &[u8]) -> (r: Node)
        ensures
            r@ == MerkleTree::Leaf(hash(data@)),
    {
        Node { hash: hash_bytes(data), left: None, right: None }
    }

    /// The leaf for a digest computed beforehand, taken as it is.
    pub fn from_digest(digest: [u8; 32]) -> (r: Node)
        ensures
            r@ == MerkleTree::Leaf(digest@),
    {
        Node { hash: digest, left: None, right: None }
    }

    /// The internal node owning `left` and `right`.
    pub fn internal(left: Node, right: Node) -> (r: Node)
        ensures
            r@ == combine(left@, right@),
            left@.well_formed() && right@.well_formed() ==> r@.well_formed(),
    {
        let hash = hash_pair(&left.hash, &right.hash);
        let r = Node { hash, left: Some(Box::new(left)), right: Some(Box::new(right)) };
        assert(r@ == combine(left@, right@));
        r
    }

    /// A node from optional children and optional data: two children give
    /// an internal node (the data is not used), no children and data give a
    /// leaf; anything else is refused.
    pub fn new(left: Option<Box<Node>>, right: Option<Box<Node>>, data: Option<&[u8]>) -> (r:
        Result<Node, MerkleError>)
        ensures
            match (left, right) {
                (Some(l), Some(rt)) => r is Ok && r->Ok_0@ == combine(l@, rt@),
                (None, None) => match data {
                    Some(d) => r is Ok && r->Ok_0@ == MerkleTree::Leaf(hash(d@)),
                    None => r == Err::<Node, MerkleError>(MerkleError::MissingLeafData),
                },
                _ => r == Err::<Node, MerkleError>(MerkleError::SingleChild),
            },
    {
        match (left, right) {
            (Some(l), Some(rt)) => Ok(Node::internal(*l, *rt)),
            (None, None) => match data {
                Some(d) => Ok(Node::leaf(d)),
                None => Err(MerkleError::MissingLeafData),
            },
            _ => Err(MerkleError::SingleChild),
        }
    }

    /// A copy of the whole tree below this node.
    pub fn duplicate(&self) -> (r: Node)
        ensures
            r@ == self@,
        decreases self,
    {
        let left = match &self.left {
            Some(l) => Some(Box::new(l.duplicate())),
            None => None,
        };
        let right = match &self.right {
            Some(rt) => Some(Box::new(rt.duplicate())),
            None => None,
        };
        Node { hash: self.hash, left, right }
    }

    /// Whether this node is a leaf.
    pub fn is_leaf(&self) -> (r: bool)
        ensures
            r == (self@ is Leaf),
    {
        !(self.left.is_some() && self.right.is_some())
    }

    /// The left child of an internal node; none for a leaf.
    pub fn left(&self) -> (r: Option<&Node>)
        ensures
            match self@ {
                MerkleTree::Internal(_, l, _) => r is Some && r->Some_0@ == *l,
                MerkleTree::Leaf(_) => r is None,
            },
    {
        match (&self.left, &self.right) {
            (Some(l), Some(_)) => Some(&**l),
            _ => None,
        }
    }

    /// The right child of an internal node; none for a leaf.
    pub fn right(&self) -> (r: Option<&Node>)
        ensures
            match self@ {
                MerkleTree::Internal(_, _, rt) => r is Some && r->Some_0@ == *rt,
                MerkleTree::Leaf(_) => r is None,
            },
    {
        match (&self.left, &self.right) {
            (Some(_), Some(rt)) => Some(&**rt),
            _ => None,
        }
    }

    /// The digest of this node as lower-case hexadecimal text.
    pub fn hex(&self) -> (r: String)
        ensures
            r@ == hex_of(self@.digest()),
    {
        to_hex(self.hash.as_slice())
    }

    /// The digest stored in this node.
    pub fn digest(&self) -> (r: [u8; 32])
        ensures
            r@ == self@.digest(),
    {
        self.hash
    }
}

} // verus!
