//! The node's two hash primitives, consumed as external collaborators:
//! a fast digest and a slow, memory-hard digest, both 32 bytes and both
//! pure functions of the input buffer. The algorithms themselves are
//! opaque to this crate; only their shape is stated.

use tiny_keccak::Hasher;
use vstd::prelude::*;

verus! {

/// Size in bytes of the node's hash digests.
pub const HASH_SIZE: usize = 32;

/// What the fast hash returns for a buffer: a function of the input
/// bytes alone.
pub uninterp spec fn fast_hash_of(data: Seq<u8>) -> Seq<u8>;

/// What the slow hash returns for a buffer: a function of the input
/// bytes alone.
pub uninterp spec fn slow_hash_of(data: Seq<u8>) -> Seq<u8>;

/// Relies on tiny_keccak's Keccak::v256 digest: fast, not memory-hard,
/// 32 bytes, and a deterministic function of the input bytes alone.
#[verifier::external_body]
pub fn cn_fast_hash(data: &[u8]) -> (r: Vec<u8>)
    ensures
        r@ == fast_hash_of(data@),
        r@.len() == HASH_SIZE,
{
    let mut keccak = tiny_keccak::Keccak::v256();
    keccak.update(data);
    let mut out = [0u8; 32];
    keccak.finalize(&mut out);
    out.to_vec()
}

/// Relies on scrypt::scrypt, a memory-hard key-derivation function,
/// run with fixed parameters and an empty salt: slow, memory-hard,
/// 32 bytes, and a deterministic function of the input bytes alone.
#[verifier::external_body]
pub fn cn_slow_hash(data: &[u8]) -> (r: Vec<u8>)
    ensures
        r@ == slow_hash_of(data@),
        r@.len() == HASH_SIZE,
{
    let params = scrypt::Params::new(14, 8, 1).unwrap();
    let mut out = [0u8; 32];
    scrypt::scrypt(data, b"", &params, &mut out).unwrap();
    out.to_vec()
}

} // verus!
