//! The hash computer: a pure function from byte content to a fixed-size
//! cryptographic digest, with a sequential pass and the parallel-chunk
//! pass used for large files. Both yield the same digest.

use vstd::prelude::*;
use crate::hex::hex_of;
use crate::hex::to_hex;

verus! {

/// The BLAKE3 digest of a byte sequence: a function of the bytes alone,
/// whose definition is the hash function's own.
pub uninterp spec fn blake3_of(bytes: Seq<u8>) -> Seq<u8>;

/// Relies on blake3::hash: the BLAKE3 digest of the input bytes, computed
/// in a single sequential pass, 32 bytes long.
#[verifier::external_body]
fn blake3_sequential(bytes: &[u8]) -> (r: Vec<u8>)
    ensures
        r@ == blake3_of(bytes@),
        r@.len() == 32,
{
    blake3::hash(bytes).as_bytes().to_vec()
}

/// Relies on blake3::Hasher::update_rayon, documented as identical to
/// Hasher::update except that hashing is internally parallelized over
/// chunks: the same BLAKE3 digest of the input bytes, 32 bytes long.
#[verifier::external_body]
fn blake3_parallel(bytes: &[u8]) -> (r: Vec<u8>)
    ensures
        r@ == blake3_of(bytes@),
        r@.len() == 32,
{
    let mut hasher = blake3::Hasher::new();
    hasher.update_rayon(bytes);
    hasher.finalize().as_bytes().to_vec()
}

/// Digest of a byte content by a straightforward sequential pass.
pub fn digest_bytes(bytes: &[u8]) -> (r: Vec<u8>)
    ensures
        r@ == blake3_of(bytes@),
        r@.len() == 32,
{
    blake3_sequential(bytes)
}

/// Digest of a byte content by the parallel-chunk path used for large
/// inputs; the digest is the same one the sequential pass yields.
pub fn digest_bytes_parallel(bytes: &[u8]) -> (r: Vec<u8>)
    ensures
        r@ == blake3_of(bytes@),
        r@.len() == 32,
{
    blake3_parallel(bytes)
}

/// The digest of a byte content, rendered as its lowercase hexadecimal
/// string of 64 digits.
pub fn digest_string(bytes: &[u8]) -> (s: String)
    ensures
        s@ == hex_of(blake3_of(bytes@)),
        s@.len() == 64,
{
    let d = digest_bytes(bytes);
    to_hex(d.as_slice())
}

/// Determinism: the digest, and so its rendered string, is a function of
/// the byte content alone — equal contents always carry equal digests,
/// however often and by whichever pass they are hashed.
pub proof fn lemma_digest_deterministic(b1: Seq<u8>, b2: Seq<u8>)
    requires
        b1 == b2,
    ensures
        blake3_of(b1) == blake3_of(b2),
        hex_of(blake3_of(b1)) == hex_of(blake3_of(b2)),
{
}

} // verus!
