use vstd::prelude::*;
use vstd::view::View as _;

use crate::crypto::{chacha20_bytes, chacha20_stream, keccak256, keccak256_of};

verus! {

/// The challenges that a byte stream yields: each byte below 255 gives its residue modulo 3, and
/// the byte 255 is rejected so that the three residues are equally likely.
pub open spec fn accepted(bytes: Seq<u8>) -> Seq<u8>
    decreases bytes.len(),
{
    if bytes.len() == 0 {
        seq![]
    } else {
        let rest = accepted(bytes.drop_last());
        if bytes.last() < 255 {
            rest.push((bytes.last() % 3) as u8)
        } else {
            rest
        }
    }
}

/// How many stream bytes are drawn for `n` challenges.
pub open spec fn stream_len(n: nat) -> nat {
    2 * n + 64
}

/// The stream from which the challenges for the hashed `commitments` are drawn.
pub open spec fn challenge_stream(commitments: Seq<u8>, n: nat) -> Seq<u8> {
    chacha20_stream(keccak256_of(commitments), stream_len(n))
}

/// The `n` challenges derived from `commitments`, if the stream yields that many.
pub open spec fn challenges_spec(commitments: Seq<u8>, n: nat) -> Option<Seq<u8>> {
    let a = accepted(challenge_stream(commitments, n));
    if a.len() >= n {
        Some(a.take(n as int))
    } else {
        None
    }
}

proof fn lemma_accepted_prefix(bytes: Seq<u8>, i: int)
    requires
        0 <= i <= bytes.len(),
    ensures
        accepted(bytes.take(i)).len() <= accepted(bytes).len(),
        accepted(bytes) .take(accepted(bytes.take(i)).len() as int) == accepted(bytes.take(i)),
    decreases bytes.len() - i,
{
    if i < bytes.len() {
        lemma_accepted_prefix(bytes, i + 1);
        let t = bytes.take(i + 1);
        assert(t.drop_last() =~= bytes.take(i));
        let a = accepted(bytes.take(i));
        let b = accepted(t);
        assert(b.take(a.len() as int) =~= a);
    } else {
        assert(bytes.take(i) =~= bytes);
    }
}

/// Every accepted residue is below 3.
proof fn lemma_accepted_below_3(bytes: Seq<u8>)
    ensures
        forall|i: int| 0 <= i < accepted(bytes).len() ==> #[trigger] accepted(bytes)[i] < 3,
    decreases bytes.len(),
{
    if bytes.len() > 0 {
        let rest = accepted(bytes.drop_last());
        lemma_accepted_below_3(bytes.drop_last());
        if bytes.last() < 255 {
            let b = bytes.last();
            assert(b % 3 < 3);
            assert forall|i: int| 0 <= i < accepted(bytes).len() implies #[trigger] accepted(bytes)[i] < 3 by {
                if i < rest.len() {
                    assert(accepted(bytes)[i] == rest[i]);
                }
            }
        }
    }
}

/// The challenges in {0, 1, 2} drawn from `bytes` by rejection sampling: the first `n` accepted
/// residues, or `None` when the bytes yield fewer than `n`.
pub fn challenges_from_stream(bytes: &Vec<u8>, n: usize) -> (r: Option<Vec<u8>>)
    ensures
        r is Some <==> accepted(bytes@).len() >= n,
        r is Some ==> r->Some_0@ == accepted(bytes@).take(n as int),
{
    let mut out: Vec<u8> = Vec::new();
    let mut i: usize = 0;
    while i < bytes.len() && out.len() < n
        invariant
            i <= bytes@.len(),
            out@ == accepted(bytes@.take(i as int)),
            out@.len() <= n,
        decreases bytes@.len() - i,
    {
        let b = bytes[i];
        proof {
            let t = bytes@.take(i as int + 1);
            assert(t.drop_last() =~= bytes@.take(i as int));
        }
        if b < 255 {
            out.push(b % 3);
        }
        i = i + 1;
    }
    proof {
        lemma_accepted_prefix(bytes@, i as int);
        if i == bytes@.len() {
            assert(bytes@.take(i as int) =~= bytes@);
        }
    }
    if out.len() < n {
        None
    } else {
        proof {
            assert(out@.take(n as int) =~= out@);
        }
        Some(out)
    }
}

/// Derives `n` challenges from the concatenated commitments: the hash of the commitments seeds
/// a ChaCha20 stream, from which the challenges are drawn by rejection sampling.
pub fn derive_challenges(commitments: &Vec<u8>, n: usize) -> (r: Option<Vec<u8>>)
    requires
        n <= usize::MAX / 128,
    ensures
        r is Some <==> challenges_spec(commitments@, n as nat) is Some,
        r is Some ==> r->Some_0@ == challenges_spec(commitments@, n as nat)->Some_0,
        r is Some ==> r->Some_0@.len() == n,
        r is Some ==> forall|i: int| 0 <= i < n ==> #[trigger] r->Some_0@[i] < 3,
{
    let d = keccak256(commitments);
    let seed: [u8; 32] = [
        d[0], d[1], d[2], d[3], d[4], d[5], d[6], d[7], d[8], d[9], d[10], d[11], d[12], d[13],
        d[14], d[15], d[16], d[17], d[18], d[19], d[20], d[21], d[22], d[23], d[24], d[25], d[26],
        d[27], d[28], d[29], d[30], d[31],
    ];
    assert(seed@ =~= d@);
    let bytes = chacha20_bytes(&seed, 2 * n + 64);
    proof {
        lemma_accepted_below_3(bytes@);
    }
    challenges_from_stream(&bytes, n)
}

} // verus!
