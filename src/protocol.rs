use vstd::prelude::*;
use vstd::view::View as _;

use crate::circuit::Circuit;
use crate::commitment::commitment_of;
use crate::fiat_shamir::challenges_spec;
use crate::gadgets::xor_words;
use crate::tape::tape_words;

verus! {

/// One repetition of the proof: the three commitments and the three output shares, the
/// challenge `e`, the keys of parties `e` and `e + 1`, the view of party `e + 1`, and the input
/// share of party `e` when it cannot be drawn from its tape (party 2).
#[derive(Debug, Clone, PartialEq, Eq)]
pub struct Repetition {
    pub commitments: Vec<Vec<u8>>,
    pub outputs: Vec<Vec<u32>>,
    pub challenge: u8,
    pub key: [u8; 32],
    pub key_next: [u8; 32],
    pub input: Vec<u32>,
    pub view_next_input: Vec<u32>,
    pub view_next_messages: Vec<u32>,
}

/// A non-interactive proof: one entry per repetition.
#[derive(Debug, Clone, PartialEq, Eq)]
pub struct Proof {
    pub repetitions: Vec<Repetition>,
}

/// Words of tape that each party needs: its input share (drawn from the tape by parties 0 and 1,
/// skipped by party 2) and one word per multiplicative gate.
pub open spec fn tape_len_of<C: Circuit>(c: &C) -> nat {
    c.input_len_spec() + c.mul_gates_spec()
}

/// The input share that party 0 or 1 draws from the tape expanded from `key`.
pub open spec fn drawn_share<C: Circuit>(c: &C, key: Seq<u8>) -> Seq<u32> {
    tape_words(key, tape_len_of(c)).take(c.input_len_spec() as int)
}

/// The tape words that a party spends on the gates.
pub open spec fn gate_tape<C: Circuit>(c: &C, key: Seq<u8>) -> Seq<u32> {
    tape_words(key, tape_len_of(c)).subrange(
        c.input_len_spec() as int,
        (c.input_len_spec() + c.mul_gates_spec()) as int,
    )
}

/// The three commitments of each repetition, as sequences.
pub open spec fn commitment_triples(reps: Seq<Repetition>) -> Seq<Seq<Seq<u8>>> {
    Seq::new(reps.len(), |j: int| Seq::new(3, |i: int| reps[j].commitments@[i]@))
}

/// The concatenation of all commitments, repetition by repetition, party by party.
pub open spec fn flatten_triples(cs: Seq<Seq<Seq<u8>>>) -> Seq<u8>
    decreases cs.len(),
{
    if cs.len() == 0 {
        seq![]
    } else {
        flatten_triples(cs.drop_last()) + cs.last()[0] + cs.last()[1] + cs.last()[2]
    }
}

/// The bytes hashed for the challenges of the proof.
pub open spec fn commitment_bytes(reps: Seq<Repetition>) -> Seq<u8> {
    flatten_triples(commitment_triples(reps))
}

/// Upper bound on the number of repetitions that the challenge derivation can handle.
pub open spec fn max_repetitions() -> nat {
    (usize::MAX / 128) as nat
}

/// A repetition has the shape that circuit `c` asks for.
pub open spec fn rep_well_formed<C: Circuit>(rep: Repetition, c: &C) -> bool {
    &&& rep.commitments@.len() == 3
    &&& forall|i: int| 0 <= i < 3 ==> (#[trigger] rep.commitments@[i])@.len() == 32
    &&& rep.outputs@.len() == 3
    &&& forall|i: int| 0 <= i < 3 ==> (#[trigger] rep.outputs@[i])@.len() == c.output_len_spec()
    &&& rep.challenge < 3
    &&& rep.view_next_input@.len() == c.input_len_spec()
    &&& rep.view_next_messages@.len() == c.mul_gates_spec()
    &&& rep.input@.len() == (if rep.challenge == 2 { c.input_len_spec() } else { 0 })
}

/// The proof has the shape that circuit `c` asks for.
pub open spec fn well_formed<C: Circuit>(proof: Proof, c: &C) -> bool {
    &&& 0 < proof.repetitions@.len() <= max_repetitions()
    &&& forall|j: int|
        0 <= j < proof.repetitions@.len() ==> rep_well_formed(#[trigger] proof.repetitions@[j], c)
}

/// The input share of the challenged party `e`: drawn from its tape for parties 0 and 1, carried
/// in the proof for party 2.
pub open spec fn opened_share<C: Circuit>(rep: Repetition, c: &C) -> Seq<u32> {
    if rep.challenge < 2 {
        drawn_share(c, rep.key@)
    } else {
        rep.input@
    }
}

/// The messages of party `e` that a verifier recomputes from the two keys and the view of party
/// `e + 1`.
pub open spec fn recomputed_messages<C: Circuit>(rep: Repetition, c: &C) -> Seq<u32> {
    c.messages_spec(
        opened_share(rep, c),
        rep.view_next_input@,
        gate_tape(c, rep.key@),
        gate_tape(c, rep.key_next@),
        rep.view_next_messages@,
    )
}

/// Party `e + 1` of a challenge `e`.
pub open spec fn next_index(e: int) -> int {
    if e == 2 {
        0
    } else {
        e + 1
    }
}

/// The commitment checks of one repetition pass.
pub open spec fn rep_commitments_ok<C: Circuit>(rep: Repetition, c: &C) -> bool {
    let e = rep.challenge as int;
    let m = recomputed_messages(rep, c);
    &&& rep.commitments@[e]@ == commitment_of(rep.key@, opened_share(rep, c), m)
    &&& rep.commitments@[next_index(e)]@ == commitment_of(
        rep.key_next@,
        rep.view_next_input@,
        rep.view_next_messages@,
    )
}

/// The output checks of one repetition pass: the opened parties' outputs are the recomputed
/// ones, and the three outputs reconstruct `y`.
pub open spec fn rep_outputs_ok<C: Circuit>(rep: Repetition, c: &C, y: Seq<u32>) -> bool {
    let e = rep.challenge as int;
    let m = recomputed_messages(rep, c);
    &&& rep.outputs@[e]@ == c.output_spec(opened_share(rep, c), m)
    &&& rep.outputs@[next_index(e)]@ == c.output_spec(rep.view_next_input@, rep.view_next_messages@)
    &&& outputs_reconstruct(rep, y)
}

/// The three output shares of a repetition XOR to `y`.
pub open spec fn outputs_reconstruct(rep: Repetition, y: Seq<u32>) -> bool {
    xor_words(rep.outputs@[0]@, rep.outputs@[1]@, rep.outputs@[2]@) == y
}

/// The challenges of the proof are those derived from its commitments.
pub open spec fn challenges_ok(proof: Proof) -> bool {
    let reps = proof.repetitions@;
    let cs = challenges_spec(commitment_bytes(reps), reps.len());
    &&& cs is Some
    &&& forall|j: int| 0 <= j < reps.len() ==> (#[trigger] reps[j]).challenge == cs->Some_0[j]
}

/// The verifier accepts `proof` for circuit `c` and public output `y`.
pub open spec fn accepts<C: Circuit>(proof: Proof, c: &C, y: Seq<u32>) -> bool {
    &&& well_formed(proof, c)
    &&& forall|j: int|
        0 <= j < proof.repetitions@.len() ==> rep_commitments_ok(#[trigger] proof.repetitions@[j], c)
    &&& forall|j: int|
        0 <= j < proof.repetitions@.len() ==> rep_outputs_ok(#[trigger] proof.repetitions@[j], c, y)
    &&& challenges_ok(proof)
}

/// One repetition as an honest prover makes it from input `x` and keys `k0`, `k1`, `k2`, where
/// `m0`, `m1`, `m2` are the messages that the three parties broadcast.
pub open spec fn honest_rep<C: Circuit>(
    rep: Repetition,
    c: &C,
    x: Seq<u32>,
    k0: Seq<u8>,
    k1: Seq<u8>,
    k2: Seq<u8>,
    m0: Seq<u32>,
    m1: Seq<u32>,
    m2: Seq<u32>,
) -> bool {
    let s0 = drawn_share(c, k0);
    let s1 = drawn_share(c, k1);
    let s2 = xor_words(x, s0, s1);
    let (t0, t1, t2) = (gate_tape(c, k0), gate_tape(c, k1), gate_tape(c, k2));
    let ks = seq![k0, k1, k2];
    let ss = seq![s0, s1, s2];
    let ms = seq![m0, m1, m2];
    let e = rep.challenge as int;
    let e1 = next_index(e);
    &&& m0 == c.messages_spec(s0, s1, t0, t1, m1)
    &&& m1 == c.messages_spec(s1, s2, t1, t2, m2)
    &&& m2 == c.messages_spec(s2, s0, t2, t0, m0)
    &&& ms == c.decomposition_spec(s0, s1, s2, t0, t1, t2)
    &&& m0.len() == c.mul_gates_spec() && m1.len() == c.mul_gates_spec() && m2.len() == c.mul_gates_spec()
    &&& tape_words(k0, tape_len_of(c)).len() == tape_len_of(c)
    &&& tape_words(k1, tape_len_of(c)).len() == tape_len_of(c)
    &&& x.len() == c.input_len_spec()
    &&& rep.commitments@.len() == 3
    &&& rep.outputs@.len() == 3
    &&& forall|i: int| 0 <= i < 3 ==> (#[trigger] rep.commitments@[i])@ == commitment_of(ks[i], ss[i], ms[i])
    &&& forall|i: int| 0 <= i < 3 ==> (#[trigger] rep.commitments@[i])@.len() == 32
    &&& forall|i: int| 0 <= i < 3 ==> (#[trigger] rep.outputs@[i])@ == c.output_spec(ss[i], ms[i])
    &&& forall|i: int| 0 <= i < 3 ==> (#[trigger] rep.outputs@[i])@.len() == c.output_len_spec()
    &&& xor_words(rep.outputs@[0]@, rep.outputs@[1]@, rep.outputs@[2]@) == c.compute_spec(x)
    &&& rep.challenge < 3
    &&& rep.key@ == ks[e]
    &&& rep.key_next@ == ks[e1]
    &&& rep.view_next_input@ == ss[e1]
    &&& rep.view_next_messages@ == ms[e1]
    &&& rep.input@ == (if e == 2 { s2 } else { Seq::<u32>::empty() })
}

/// Repetition `j` of `proof` is honest for input `x` and the keys `keys[3j..3j+3]`.
pub open spec fn honest_rep_at<C: Circuit>(proof: Proof, c: &C, x: Seq<u32>, keys: Seq<[u8; 32]>, j: int) -> bool {
    exists|m0: Seq<u32>, m1: Seq<u32>, m2: Seq<u32>|
        #[trigger] honest_rep(
            proof.repetitions@[j],
            c,
            x,
            keys[3 * j]@,
            keys[3 * j + 1]@,
            keys[3 * j + 2]@,
            m0,
            m1,
            m2,
        )
}

/// The three commitments that an honest prover makes in one repetition from input `x` and keys
/// `k0`, `k1`, `k2`.
pub open spec fn honest_triple<C: Circuit>(c: &C, x: Seq<u32>, k0: Seq<u8>, k1: Seq<u8>, k2: Seq<u8>) -> Seq<Seq<u8>> {
    let s0 = drawn_share(c, k0);
    let s1 = drawn_share(c, k1);
    let s2 = xor_words(x, s0, s1);
    let ms = c.decomposition_spec(s0, s1, s2, gate_tape(c, k0), gate_tape(c, k1), gate_tape(c, k2));
    seq![commitment_of(k0, s0, ms[0]), commitment_of(k1, s1, ms[1]), commitment_of(k2, s2, ms[2])]
}

/// The bytes that an honest prover hashes for the challenges, from input `x` and the keys, three
/// per repetition.
pub open spec fn honest_commitment_bytes<C: Circuit>(c: &C, x: Seq<u32>, keys: Seq<[u8; 32]>) -> Seq<u8> {
    flatten_triples(
        Seq::new(
            keys.len() / 3,
            |j: int| honest_triple(c, x, keys[3 * j]@, keys[3 * j + 1]@, keys[3 * j + 2]@),
        ),
    )
}

/// `proof` is what an honest prover makes from input `x` with the given keys, three per
/// repetition.
pub open spec fn honest<C: Circuit>(proof: Proof, c: &C, x: Seq<u32>, keys: Seq<[u8; 32]>) -> bool {
    let n = proof.repetitions@.len();
    &&& 0 < n <= max_repetitions()
    &&& keys.len() == 3 * n
    &&& x.len() == c.input_len_spec()
    &&& forall|j: int| 0 <= j < n ==> #[trigger] honest_rep_at(proof, c, x, keys, j)
    &&& challenges_ok(proof)
}

/// Completeness: every proof that an honest prover makes from input `x`, whatever keys it drew,
/// is accepted for the output `C(x)`.
pub proof fn lemma_completeness<C: Circuit>(proof: Proof, c: &C, x: Seq<u32>, keys: Seq<[u8; 32]>)
    requires
        honest(proof, c, x, keys),
    ensures
        accepts(proof, c, c.compute_spec(x)),
{
    let reps = proof.repetitions@;
    let y = c.compute_spec(x);
    assert forall|j: int| 0 <= j < reps.len() implies rep_well_formed(#[trigger] reps[j], c)
        && rep_commitments_ok(reps[j], c) && rep_outputs_ok(reps[j], c, y) by {
        assert(honest_rep_at(proof, c, x, keys, j));
        let (m0, m1, m2) = choose|m0: Seq<u32>, m1: Seq<u32>, m2: Seq<u32>|
            #[trigger] honest_rep(reps[j], c, x, keys[3 * j]@, keys[3 * j + 1]@, keys[3 * j + 2]@, m0, m1, m2);
        lemma_honest_rep_accepted(reps[j], c, x, keys[3 * j]@, keys[3 * j + 1]@, keys[3 * j + 2]@, m0, m1, m2);
    }
}

proof fn lemma_honest_rep_accepted<C: Circuit>(
    rep: Repetition,
    c: &C,
    x: Seq<u32>,
    k0: Seq<u8>,
    k1: Seq<u8>,
    k2: Seq<u8>,
    m0: Seq<u32>,
    m1: Seq<u32>,
    m2: Seq<u32>,
)
    requires
        honest_rep(rep, c, x, k0, k1, k2, m0, m1, m2),
    ensures
        rep_well_formed(rep, c),
        rep_commitments_ok(rep, c),
        rep_outputs_ok(rep, c, c.compute_spec(x)),
{
    let s0 = drawn_share(c, k0);
    let s1 = drawn_share(c, k1);
    let s2 = xor_words(x, s0, s1);
    let ks = seq![k0, k1, k2];
    let ss = seq![s0, s1, s2];
    let ms = seq![m0, m1, m2];
    assert(s0.len() == c.input_len_spec());
    assert(s1.len() == c.input_len_spec());
    assert(s2.len() == c.input_len_spec());
    let e = rep.challenge as int;
    assert(opened_share(rep, c) == ss[e]);
    assert(recomputed_messages(rep, c) == ms[e]);
    assert(rep.commitments@[e]@ == commitment_of(ks[e], ss[e], ms[e]));
    assert(rep.commitments@[next_index(e)]@ == commitment_of(ks[next_index(e)], ss[next_index(e)], ms[next_index(e)]));
    assert(rep.outputs@[e]@ == c.output_spec(ss[e], ms[e]));
    assert(rep.outputs@[next_index(e)]@ == c.output_spec(ss[next_index(e)], ms[next_index(e)]));
}

/// Output binding: a proof whose repetitions reconstruct `y` reconstructs no other output, so the
/// verifier, which accepts only proofs that reconstruct the claimed output, rejects it for any
/// `y2` other than `y`.
pub proof fn lemma_output_binding<C: Circuit>(proof: Proof, c: &C, y: Seq<u32>, y2: Seq<u32>)
    requires
        accepts(proof, c, y),
        y2 != y,
    ensures
        !accepts(proof, c, y2),
{
    let rep = proof.repetitions@[0];
    assert(rep_outputs_ok(rep, c, y));
    if accepts(proof, c, y2) {
        assert(rep_outputs_ok(rep, c, y2));
    }
}

/// What a repetition holds, as plain values.
pub open spec fn rep_view(rep: Repetition) -> (
    Seq<Seq<u8>>,
    Seq<Seq<u32>>,
    u8,
    Seq<u8>,
    Seq<u8>,
    Seq<u32>,
    Seq<u32>,
    Seq<u32>,
) {
    (
        Seq::new(rep.commitments@.len(), |i: int| rep.commitments@[i]@),
        Seq::new(rep.outputs@.len(), |i: int| rep.outputs@[i]@),
        rep.challenge,
        rep.key@,
        rep.key_next@,
        rep.input@,
        rep.view_next_input@,
        rep.view_next_messages@,
    )
}

/// What a proof holds, as plain values.
pub open spec fn proof_view(proof: Proof) -> Seq<
    (Seq<Seq<u8>>, Seq<Seq<u32>>, u8, Seq<u8>, Seq<u8>, Seq<u32>, Seq<u32>, Seq<u32>),
> {
    Seq::new(proof.repetitions@.len(), |j: int| rep_view(proof.repetitions@[j]))
}

/// Determinism: the proof that an honest prover makes is fixed by the circuit, the input and
/// the keys.
pub proof fn lemma_deterministic<C: Circuit>(p1: Proof, p2: Proof, c: &C, x: Seq<u32>, keys: Seq<[u8; 32]>)
    requires
        honest(p1, c, x, keys),
        honest(p2, c, x, keys),
    ensures
        proof_view(p1) == proof_view(p2),
{
    let (r1, r2) = (p1.repetitions@, p2.repetitions@);
    assert(r1.len() == r2.len());
    let n = r1.len();
    assert forall|j: int| 0 <= j < n implies {
        &&& #[trigger] r1[j].commitments@.len() == 3
        &&& r2[j].commitments@.len() == 3
        &&& r1[j].outputs@.len() == 3
        &&& r2[j].outputs@.len() == 3
        &&& forall|i: int| 0 <= i < 3 ==> (#[trigger] r1[j].commitments@[i])@ == r2[j].commitments@[i]@
        &&& forall|i: int| 0 <= i < 3 ==> (#[trigger] r1[j].outputs@[i])@ == r2[j].outputs@[i]@
    } by {
        assert(honest_rep_at(p1, c, x, keys, j));
        assert(honest_rep_at(p2, c, x, keys, j));
        let (k0, k1, k2) = (keys[3 * j]@, keys[3 * j + 1]@, keys[3 * j + 2]@);
        let (a0, a1, a2) = choose|m0: Seq<u32>, m1: Seq<u32>, m2: Seq<u32>|
            #[trigger] honest_rep(r1[j], c, x, k0, k1, k2, m0, m1, m2);
        let (b0, b1, b2) = choose|m0: Seq<u32>, m1: Seq<u32>, m2: Seq<u32>|
            #[trigger] honest_rep(r2[j], c, x, k0, k1, k2, m0, m1, m2);
        assert(seq![a0, a1, a2] == seq![b0, b1, b2]);
        assert(seq![a0, a1, a2][0] == a0 && seq![b0, b1, b2][0] == b0);
        assert(seq![a0, a1, a2][1] == a1 && seq![b0, b1, b2][1] == b1);
        assert(seq![a0, a1, a2][2] == a2 && seq![b0, b1, b2][2] == b2);
    }
    assert forall|j: int| 0 <= j < n implies #[trigger] commitment_triples(r1)[j] == commitment_triples(r2)[j] by {
        assert(r1[j].commitments@.len() == 3);
        assert(commitment_triples(r1)[j] =~= commitment_triples(r2)[j]);
    }
    assert(commitment_triples(r1) =~= commitment_triples(r2));
    assert forall|j: int| 0 <= j < n implies #[trigger] rep_view(r1[j]) == rep_view(r2[j]) by {
        assert(honest_rep_at(p1, c, x, keys, j));
        assert(honest_rep_at(p2, c, x, keys, j));
        let (k0, k1, k2) = (keys[3 * j]@, keys[3 * j + 1]@, keys[3 * j + 2]@);
        let (a0, a1, a2) = choose|m0: Seq<u32>, m1: Seq<u32>, m2: Seq<u32>|
            #[trigger] honest_rep(r1[j], c, x, k0, k1, k2, m0, m1, m2);
        let (b0, b1, b2) = choose|m0: Seq<u32>, m1: Seq<u32>, m2: Seq<u32>|
            #[trigger] honest_rep(r2[j], c, x, k0, k1, k2, m0, m1, m2);
        assert(seq![a0, a1, a2] == seq![b0, b1, b2]);
        assert(seq![a0, a1, a2][0] == a0 && seq![b0, b1, b2][0] == b0);
        assert(seq![a0, a1, a2][1] == a1 && seq![b0, b1, b2][1] == b1);
        assert(seq![a0, a1, a2][2] == a2 && seq![b0, b1, b2][2] == b2);
        assert(r1[j].challenge == r2[j].challenge);
        assert(Seq::new(3, |i: int| r1[j].commitments@[i]@) =~= Seq::new(3, |i: int| r2[j].commitments@[i]@));
        assert(Seq::new(3, |i: int| r1[j].outputs@[i]@) =~= Seq::new(3, |i: int| r2[j].outputs@[i]@));
    }
    assert(proof_view(p1) =~= proof_view(p2));
}

/// The opened commitments are bound to what is opened: two accepted proofs that open the same
/// keys and view at repetition `j` carry the same commitments for the two opened parties. So
/// changing any bit of an opened commitment of an accepted proof, and nothing else, makes it
/// rejected. (For the unopened commitment the rejection comes through the challenges, which
/// rests on the hash and is not stated here.)
pub proof fn lemma_opened_commitments_bound<C: Circuit>(
    p1: Proof,
    p2: Proof,
    c: &C,
    y1: Seq<u32>,
    y2: Seq<u32>,
    j: int,
)
    requires
        accepts(p1, c, y1),
        accepts(p2, c, y2),
        0 <= j < p1.repetitions@.len(),
        0 <= j < p2.repetitions@.len(),
        p1.repetitions@[j].challenge == p2.repetitions@[j].challenge,
        p1.repetitions@[j].key == p2.repetitions@[j].key,
        p1.repetitions@[j].key_next == p2.repetitions@[j].key_next,
        p1.repetitions@[j].input@ == p2.repetitions@[j].input@,
        p1.repetitions@[j].view_next_input@ == p2.repetitions@[j].view_next_input@,
        p1.repetitions@[j].view_next_messages@ == p2.repetitions@[j].view_next_messages@,
    ensures
        ({
            let e = p1.repetitions@[j].challenge as int;
            &&& p1.repetitions@[j].commitments@[e]@ == p2.repetitions@[j].commitments@[e]@
            &&& p1.repetitions@[j].commitments@[next_index(e)]@
                == p2.repetitions@[j].commitments@[next_index(e)]@
        }),
{
    let (a, b) = (p1.repetitions@[j], p2.repetitions@[j]);
    assert(rep_commitments_ok(a, c));
    assert(rep_commitments_ok(b, c));
    assert(opened_share(a, c) == opened_share(b, c));
    assert(recomputed_messages(a, c) == recomputed_messages(b, c));
}

} // verus!
