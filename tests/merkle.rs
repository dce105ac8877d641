use merkle_tree::builder::{build_merkle_tree, build_merkle_tree_from_digests};
use merkle_tree::digest::{hash_bytes, hash_pair};
use merkle_tree::hex::to_hex;
use merkle_tree::node::{MerkleError, Node};

const LEAF1: &str = "9a59c5f8229aab55e9f855173ef94485aab8497eea0588f365c871d6d0561722";
const LEAF2: &str = "6d0b07ee773591f2a1b492d3ca65afdefc90e1cadfcc542a74048bb0ae7daa27";
const LEAF3: &str = "7e56ddaff5ff44d9e1732b1fd138a2057df045b163385068988554f72047e272";
const LEAF4: &str = "215008ba416eb06b8cfd53814660a43255e4ccc8703080af501ea0eaf7b7fdea";
const ROOT2: &str = "493a4f87e53cce35234f1a12e775c6e11241f49dcc2b1e79f4d3fd2c2b5b6781";
const ROOT3: &str = "1902f8c3a744c7a0228d466ff06be7ec7401e3b3c6f886334f27f974407560eb";
const ROOT4: &str = "eae5935f45caf2924b95ca42f623023e857c2d8a4953fd5a41509c0040fdc6c3";
const ROOT5: &str = "092dee0c17e821e137fa4d9487105faba2d77ec52adac56a5a4ebe1f19accfe7";

fn root_hex(blocks: &[&[u8]]) -> String {
    build_merkle_tree(blocks.to_vec()).unwrap().hex()
}

#[test]
fn leaf_digests_are_sha256() {
    assert_eq!(to_hex(&hash_bytes(b"block1")), LEAF1);
    assert_eq!(to_hex(&hash_bytes(b"block2")), LEAF2);
    assert_eq!(to_hex(&hash_bytes(b"block3")), LEAF3);
    assert_eq!(to_hex(&hash_bytes(b"block4")), LEAF4);
    assert_eq!(
        to_hex(&hash_bytes(b"")),
        "e3b0c44298fc1c149afbf4c8996fb92427ae41e4649b934ca495991b7852b855"
    );
}

#[test]
fn hash_pair_hashes_the_concatenation() {
    let a = hash_bytes(b"block1");
    let b = hash_bytes(b"block2");
    let mut joined = a.to_vec();
    joined.extend_from_slice(&b);
    let p = hash_pair(&a, &b);
    assert_eq!(p, hash_bytes(&joined));
    assert_eq!(to_hex(&p), ROOT2);
    assert_ne!(p, a);
    assert_ne!(p, b);
}

#[test]
fn to_hex_renders_two_lower_case_digits_per_byte() {
    assert_eq!(to_hex(&[0x00, 0x0f, 0xa0, 0xff, 0x5c]), "000fa0ff5c");
    assert_eq!(to_hex(&[]), "");
}

#[test]
fn single_block_root_is_its_hash() {
    let root = build_merkle_tree(vec![b"block1".as_slice()]).unwrap();
    assert!(root.is_leaf());
    assert!(root.left().is_none());
    assert!(root.right().is_none());
    assert_eq!(root.hex(), LEAF1);
    assert_eq!(root.digest(), hash_bytes(b"block1"));
}

#[test]
fn two_blocks() {
    assert_eq!(root_hex(&[b"block1", b"block2"]), ROOT2);
}

#[test]
fn three_blocks_duplicate_the_last_node() {
    let blocks: Vec<&[u8]> = vec![b"block1", b"block2", b"block3"];
    let root = build_merkle_tree(blocks).unwrap();
    assert_eq!(root.hex(), ROOT3);
    let h1 = hash_bytes(b"block1");
    let h2 = hash_bytes(b"block2");
    let h3 = hash_bytes(b"block3");
    let expected = hash_pair(&hash_pair(&h1, &h2), &hash_pair(&h3, &h3));
    assert_eq!(root.digest(), expected);
    let right = root.right().unwrap();
    assert!(!right.is_leaf());
    assert_eq!(right.left().unwrap().hex(), LEAF3);
    assert_eq!(right.right().unwrap().hex(), LEAF3);
    assert_eq!(root.left().unwrap().hex(), ROOT2);
}

#[test]
fn four_block_worked_example() {
    let root = build_merkle_tree(vec![b"block1", b"block2", b"block3", b"block4"]).unwrap();
    assert_eq!(root.hex(), ROOT4);
    let left = root.left().unwrap();
    assert_eq!(left.left().unwrap().hex(), LEAF1);
    assert_eq!(left.right().unwrap().hex(), LEAF2);
    let right = root.right().unwrap();
    assert_eq!(right.left().unwrap().hex(), LEAF3);
    assert_eq!(right.right().unwrap().hex(), LEAF4);
    assert!(right.right().unwrap().is_leaf());
}

#[test]
fn five_blocks_duplicate_on_two_levels() {
    assert_eq!(root_hex(&[b"block1", b"block2", b"block3", b"block4", b"block5"]), ROOT5);
}

#[test]
fn construction_is_deterministic() {
    let blocks: Vec<&[u8]> = vec![b"alpha", b"beta", b"gamma", b"delta", b"epsilon"];
    let a = build_merkle_tree(blocks.clone()).unwrap();
    let b = build_merkle_tree(blocks).unwrap();
    assert_eq!(a.digest(), b.digest());
}

#[test]
fn swapping_blocks_changes_the_root() {
    let blocks: [&[u8]; 4] = [b"block1", b"block2", b"block3", b"block4"];
    let base = root_hex(&blocks);
    for i in 0..4 {
        for j in (i + 1)..4 {
            let mut swapped = blocks;
            swapped.swap(i, j);
            assert_ne!(root_hex(&swapped), base, "swap {} {}", i, j);
        }
    }
    assert_ne!(root_hex(&[b"block2", b"block1"]), ROOT2);
}

#[test]
fn swapping_equal_blocks_keeps_the_root() {
    let blocks: [&[u8]; 3] = [b"same", b"other", b"same"];
    let mut swapped = blocks;
    swapped.swap(0, 2);
    assert_eq!(root_hex(&swapped), root_hex(&blocks));
}

#[test]
fn flipping_one_bit_changes_the_root() {
    let originals: Vec<Vec<u8>> = vec![b"block1".to_vec(), b"block2".to_vec(), b"block3".to_vec()];
    let base = {
        let refs: Vec<&[u8]> = originals.iter().map(|b| b.as_slice()).collect();
        build_merkle_tree(refs).unwrap().digest()
    };
    for i in 0..originals.len() {
        for k in 0..originals[i].len() {
            for bit in 0..8 {
                let mut changed = originals.clone();
                changed[i][k] ^= 1u8 << bit;
                let refs: Vec<&[u8]> = changed.iter().map(|b| b.as_slice()).collect();
                let root = build_merkle_tree(refs).unwrap().digest();
                assert_ne!(root, base, "block {} byte {} bit {}", i, k, bit);
            }
        }
    }
}

#[test]
fn prehashed_digests_give_the_same_tree() {
    let blocks: Vec<&[u8]> = vec![b"block1", b"block2", b"block3"];
    let digests: Vec<[u8; 32]> = blocks.iter().map(|b| hash_bytes(b)).collect();
    let from_blocks = build_merkle_tree(blocks).unwrap();
    let from_digests = build_merkle_tree_from_digests(digests).unwrap();
    assert_eq!(from_blocks.digest(), from_digests.digest());
    assert_eq!(from_digests.hex(), ROOT3);
    assert_eq!(from_digests.left().unwrap().left().unwrap().hex(), LEAF1);
}

#[test]
fn digests_as_raw_blocks_are_hashed_again() {
    let h: Vec<[u8; 32]> = vec![hash_bytes(b"block1"), hash_bytes(b"block2"), hash_bytes(b"block3")];
    let raw: Vec<&[u8]> = h.iter().map(|d| d.as_slice()).collect();
    let root = build_merkle_tree(raw).unwrap();
    assert_eq!(root.hex(), "875309d571568ad4ed8293e9bab2607799e2b0099d86989e766d67211af548cf");
    assert_ne!(root.hex(), ROOT3);
}

#[test]
fn empty_input_is_refused() {
    assert_eq!(build_merkle_tree(Vec::new()).err(), Some(MerkleError::EmptyInput));
    assert_eq!(build_merkle_tree_from_digests(Vec::new()).err(), Some(MerkleError::EmptyInput));
}

#[test]
fn empty_block_is_a_valid_leaf() {
    let root = build_merkle_tree(vec![b"".as_slice()]).unwrap();
    assert_eq!(root.hex(), "e3b0c44298fc1c149afbf4c8996fb92427ae41e4649b934ca495991b7852b855");
}

#[test]
fn new_builds_leaves_and_internal_nodes() {
    let l = Node::new(None, None, Some(b"block1")).unwrap();
    assert!(l.is_leaf());
    assert_eq!(l.hex(), LEAF1);
    let r = Node::new(None, None, Some(b"block2")).unwrap();
    let n = Node::new(Some(Box::new(l)), Some(Box::new(r)), None).unwrap();
    assert!(!n.is_leaf());
    assert_eq!(n.hex(), ROOT2);
}

#[test]
fn new_ignores_data_when_both_children_are_given() {
    let l = Node::leaf(b"block1");
    let r = Node::leaf(b"block2");
    let n = Node::new(Some(Box::new(l)), Some(Box::new(r)), Some(b"ignored")).unwrap();
    assert_eq!(n.hex(), ROOT2);
}

#[test]
fn new_refuses_a_leaf_without_data() {
    assert_eq!(Node::new(None, None, None).err(), Some(MerkleError::MissingLeafData));
}

#[test]
fn new_refuses_a_single_child() {
    let only_left = Node::new(Some(Box::new(Node::leaf(b"a"))), None, Some(b"x"));
    assert_eq!(only_left.err(), Some(MerkleError::SingleChild));
    let only_right = Node::new(None, Some(Box::new(Node::leaf(b"a"))), None);
    assert_eq!(only_right.err(), Some(MerkleError::SingleChild));
}

#[test]
fn internal_and_duplicate() {
    let a = Node::internal(Node::leaf(b"block1"), Node::leaf(b"block2"));
    let copy = a.duplicate();
    assert_eq!(copy.hex(), a.hex());
    assert_eq!(copy.left().unwrap().hex(), LEAF1);
    assert_eq!(copy.right().unwrap().hex(), LEAF2);
    let d = Node::from_digest(hash_bytes(b"block3"));
    assert!(d.is_leaf());
    assert_eq!(d.hex(), LEAF3);
}
