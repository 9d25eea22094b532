//! BLAKE3 hashes of contents and identifiers.
use vstd::prelude::*;

use crate::ids::ContentHash;

verus! {

/// The BLAKE3 hash of some bytes.
pub uninterp spec fn blake3_hash(bytes: Seq<u8>) -> Seq<u8>;

/// The keyed BLAKE3 hash of some bytes.
pub uninterp spec fn blake3_keyed_hash(key: Seq<u8>, bytes: Seq<u8>) -> Seq<u8>;

/// Wraps `blake3::hash`; the result is named [`blake3_hash`].
#[verifier::external_body]
pub(crate) fn hash_content(bytes: &[u8]) -> (hash: ContentHash)
    ensures
        hash@ == blake3_hash(bytes@),
{
    ContentHash(*blake3::hash(bytes).as_bytes())
}

/// Wraps `blake3::keyed_hash`; the result is named [`blake3_keyed_hash`].
#[verifier::external_body]
pub(crate) fn keyed_hash(key: &[u8; 32], bytes: &[u8]) -> (hash: [u8; 32])
    ensures
        hash@ == blake3_keyed_hash(key@, bytes@),
{
    *blake3::keyed_hash(key, bytes).as_bytes()
}

} // verus!
