use vstd::prelude::*;
use vstd::view::View as _;

use crate::crypto::{keccak256, keccak256_of};
use crate::encoding::{bytes_of, push_le_words};

verus! {

/// The commitment to a party's key and view: the hash of the key, the input share and the
/// messages, each word in little-endian order.
pub open spec fn commitment_of(key: Seq<u8>, input: Seq<u32>, messages: Seq<u32>) -> Seq<u8> {
    keccak256_of(key + bytes_of(input) + bytes_of(messages))
}

/// Commits to a party's key and view (input share and messages).
pub fn commit(key: &[u8; 32], input: &Vec<u32>, messages: &Vec<u32>) -> (r: Vec<u8>)
    ensures
        r@ == commitment_of(key@, input@, messages@),
        r@.len() == 32,
{
    let mut bytes: Vec<u8> = Vec::new();
    let mut i: usize = 0;
    while i < 32
        invariant
            i <= 32,
            bytes@ == key@.take(i as int),
        decreases 32 - i,
    {
        bytes.push(key[i]);
        i = i + 1;
        assert(bytes@ =~= key@.take(i as int));
    }
    assert(key@.take(32) =~= key@);
    push_le_words(&mut bytes, input);
    push_le_words(&mut bytes, messages);
    keccak256(&bytes)
}

} // verus!
