use rand::{RngCore, SeedableRng};
use sha3::Digest;
use vstd::prelude::*;

verus! {

/// The byte stream that ChaCha20 produces from a 32-byte seed, cut to `len` bytes.
pub uninterp spec fn chacha20_stream(seed: Seq<u8>, len: nat) -> Seq<u8>;

/// The Keccak-256 digest of `data`.
pub uninterp spec fn keccak256_of(data: Seq<u8>) -> Seq<u8>;

/// Relies on `rand_chacha::ChaCha20Rng::from_seed` followed by `RngCore::fill_bytes`:
/// the generator is deterministic, so the bytes depend on the seed and the length alone,
/// and `fill_bytes` fills the whole buffer.
#[verifier::external_body]
pub(crate) fn chacha20_bytes(seed: &[u8; 32], len: usize) -> (r: Vec<u8>)
    ensures
        r@ == chacha20_stream(seed@, len as nat),
        r@.len() == len,
{
    let mut rng = rand_chacha::ChaCha20Rng::from_seed(*seed);
    let mut out = vec![0u8; len];
    rng.fill_bytes(&mut out);
    out
}

/// Relies on `sha3::Keccak256` through `digest::Digest::digest`: the digest depends on the
/// data alone and is 32 bytes long.
#[verifier::external_body]
pub(crate) fn keccak256(data: &Vec<u8>) -> (r: Vec<u8>)
    ensures
        r@ == keccak256_of(data@),
        r@.len() == 32,
{
    sha3::Keccak256::digest(data.as_slice()).to_vec()
}

/// Relies on `rand::random`: a key drawn from the thread-local generator. Nothing is known of
/// its value.
#[verifier::external_body]
pub(crate) fn random_key() -> (r: [u8; 32]) {
    rand::random::<[u8; 32]>()
}

} // verus!
