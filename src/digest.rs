//! The hash function of the tree: SHA-256 over byte strings.
use sha2::{Digest, Sha256};
use vstd::prelude::*;

verus! {

/// Number of bytes in a digest.
pub const DIGEST_LEN: usize = 32;

/// The SHA-256 digest of a byte string.
pub uninterp spec fn sha256_of(data: Seq<u8>) -> [u8; 32];

/// The digest of `data` as a byte sequence; it always has `DIGEST_LEN` bytes.
pub open spec fn hash(data: Seq<u8>) -> Seq<u8> {
    sha256_of(data)@
}

/// Relies on sha2's `Sha256::digest`: the 32-byte SHA-256 digest of `data`,
/// which depends on the bytes of `data` alone.
#[verifier::external_body]
fn sha256(data: &[u8]) -> (r: [u8; 32])
    ensures
        r == sha256_of(data@),
{
    Sha256::digest(data).into()
}

/// Digest of a byte string.
pub fn hash_bytes(data: &[u8]) -> (r: [u8; 32])
    ensures
        r@ == hash(data@),
{
    sha256(data)
}

/// Digest of the concatenation `left ++ right`, with no separator.
pub fn hash_pair(left: &[u8; 32], right: &[u8; 32]) -> (r: [u8; 32])
    ensures
        r@ == hash(left@ + right@),
{
    let mut buf: Vec<u8> = Vec::with_capacity(2 * DIGEST_LEN);
    let mut i: usize = 0;
    while i < DIGEST_LEN
        invariant
            i <= DIGEST_LEN,
            buf@ == left@.take(i as int),
        decreases DIGEST_LEN - i,
    {
        buf.push(left[i]);
        i = i + 1;
        assert(buf@ =~= left@.take(i as int));
    }
    let mut j: usize = 0;
    while j < DIGEST_LEN
        invariant
            j <= DIGEST_LEN,
            buf@ == left@ + right@.take(j as int),
        decreases DIGEST_LEN - j,
    {
        buf.push(right[j]);
        j = j + 1;
        assert(buf@ =~= left@ + right@.take(j as int));
    }
    assert(left@ =~= left@.take(32));
    assert(right@ =~= right@.take(32));
    sha256(buf.as_slice())
}

} // verus!
