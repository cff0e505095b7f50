use vstd::prelude::*;
use vstd::view::View as _;

use crate::circuit::Circuit;
use crate::commitment::{commit, commitment_of};
use crate::crypto::random_key;
use crate::encoding::{copy_bytes, copy_words, words_equal};
use crate::error::Error;
use crate::fiat_shamir::{challenges_spec, derive_challenges};
use crate::gadgets::{new_messages, unread_tape, xor3, xor_words};
use crate::party::Party;
use crate::protocol::{
    accepts, challenges_ok, commitment_bytes, commitment_triples, drawn_share, gate_tape, honest,
    honest_commitment_bytes, honest_rep, honest_triple, honest_rep_at, lemma_completeness, max_repetitions, next_index, tape_len_of, Proof,
    Repetition,
};
use crate::tape::{tape_words, Tape};
use crate::view::View;
use crate::num_of_repetitions_given_desired_security;
use crate::repetitions_for;

verus! {

/// What one repetition of an honest prover holds before the challenge is known: `rep` carries
/// the commitments and outputs, `shares` and `messages` the three parties' views.
pub open spec fn run_ok<C: Circuit>(
    rep: Repetition,
    shares: Seq<Seq<u32>>,
    messages: Seq<Seq<u32>>,
    c: &C,
    x: Seq<u32>,
    k0: Seq<u8>,
    k1: Seq<u8>,
    k2: Seq<u8>,
) -> bool {
    let s0 = drawn_share(c, k0);
    let s1 = drawn_share(c, k1);
    let s2 = xor_words(x, s0, s1);
    let (t0, t1, t2) = (gate_tape(c, k0), gate_tape(c, k1), gate_tape(c, k2));
    let ks = seq![k0, k1, k2];
    let ss = seq![s0, s1, s2];
    let (m0, m1, m2) = (messages[0], messages[1], messages[2]);
    &&& shares.len() == 3
    &&& messages.len() == 3
    &&& shares == ss
    &&& m0 == c.messages_spec(s0, s1, t0, t1, m1)
    &&& m1 == c.messages_spec(s1, s2, t1, t2, m2)
    &&& m2 == c.messages_spec(s2, s0, t2, t0, m0)
    &&& messages == c.decomposition_spec(s0, s1, s2, t0, t1, t2)
    &&& m0.len() == c.mul_gates_spec() && m1.len() == c.mul_gates_spec() && m2.len() == c.mul_gates_spec()
    &&& tape_words(k0, tape_len_of(c)).len() == tape_len_of(c)
    &&& tape_words(k1, tape_len_of(c)).len() == tape_len_of(c)
    &&& x.len() == c.input_len_spec()
    &&& rep.commitments@.len() == 3
    &&& rep.outputs@.len() == 3
    &&& forall|i: int| 0 <= i < 3 ==> (#[trigger] rep.commitments@[i])@ == commitment_of(ks[i], ss[i], messages[i])
    &&& forall|i: int| 0 <= i < 3 ==> (#[trigger] rep.commitments@[i])@.len() == 32
    &&& forall|i: int| 0 <= i < 3 ==> (#[trigger] rep.outputs@[i])@ == c.output_spec(ss[i], messages[i])
    &&& forall|i: int| 0 <= i < 3 ==> (#[trigger] rep.outputs@[i])@.len() == c.output_len_spec()
    &&& xor_words(rep.outputs@[0]@, rep.outputs@[1]@, rep.outputs@[2]@) == c.compute_spec(x)
}

/// The views of a list of word vectors.
pub open spec fn views_of(v: Seq<Vec<u32>>) -> Seq<Seq<u32>> {
    Seq::new(v.len(), |i: int| v[i]@)
}

/// Runs one repetition: expands the three keys into tapes, draws the input shares of parties 0
/// and 1 from their tapes and sets party 2's share so that the three XOR to `x`, evaluates the
/// decomposition and commits to the three views. The opened fields of the returned repetition
/// are left empty.
fn run_repetition<C: Circuit>(c: &C, x: &Vec<u32>, k0: &[u8; 32], k1: &[u8; 32], k2: &[u8; 32]) -> (r: (
    Repetition,
    Vec<Vec<u32>>,
    Vec<Vec<u32>>,
))
    requires
        x@.len() == c.input_len_spec(),
        tape_len_of(c) <= usize::MAX / 4,
    ensures
        run_ok(r.0, views_of(r.1@), views_of(r.2@), c, x@, k0@, k1@, k2@),
{
    let input_len = c.party_input_len();
    let gates = c.num_of_mul_gates();
    let tape_len = input_len + gates;

    let mut t0 = Tape::from_key(k0, tape_len);
    let s0 = t0.read_words(input_len);
    let mut t1 = Tape::from_key(k1, tape_len);
    let s1 = t1.read_words(input_len);
    let mut t2 = Tape::from_key(k2, tape_len);
    let _skipped = t2.read_words(input_len);
    let s2 = xor3(x, &s0, &s1);
    proof {
        assert(s0@ =~= drawn_share(c, k0@));
        assert(s1@ =~= drawn_share(c, k1@));
        assert forall|i: int| 0 <= i < x@.len() implies #[trigger] xor_words(s0@, s1@, s2@)[i] == x@[i] by {
            let (a, b, w) = (s0@[i], s1@[i], x@[i]);
            assert(a ^ b ^ (w ^ a ^ b) == w) by (bit_vector);
        }
        assert(xor_words(s0@, s1@, s2@) =~= x@);
    }

    let mut p0 = Party::from_tape_and_view(View::new(copy_words(&s0)), t0);
    let mut p1 = Party::from_tape_and_view(View::new(copy_words(&s1)), t1);
    let mut p2 = Party::from_tape_and_view(View::new(copy_words(&s2)), t2);
    let ghost (b0, b1, b2) = (p0, p1, p2);
    assert(unread_tape(b0, gates as int) =~= gate_tape(c, k0@));
    assert(unread_tape(b1, gates as int) =~= gate_tape(c, k1@));
    assert(unread_tape(b2, gates as int) =~= gate_tape(c, k2@));
    let (o0, o1, o2) = c.compute_23_decomposition(&mut p0, &mut p1, &mut p2);
    assert(new_messages(b0, p0) =~= p0.view.messages@);
    assert(new_messages(b1, p1) =~= p1.view.messages@);
    assert(new_messages(b2, p2) =~= p2.view.messages@);

    let c0 = commit(k0, &s0, &p0.view.messages);
    let c1 = commit(k1, &s1, &p1.view.messages);
    let c2 = commit(k2, &s2, &p2.view.messages);
    let m0 = copy_words(&p0.view.messages);
    let m1 = copy_words(&p1.view.messages);
    let m2 = copy_words(&p2.view.messages);

    let mut commitments: Vec<Vec<u8>> = Vec::new();
    commitments.push(c0);
    commitments.push(c1);
    commitments.push(c2);
    let mut outputs: Vec<Vec<u32>> = Vec::new();
    outputs.push(o0);
    outputs.push(o1);
    outputs.push(o2);
    let mut shares: Vec<Vec<u32>> = Vec::new();
    shares.push(s0);
    shares.push(s1);
    shares.push(s2);
    let mut messages: Vec<Vec<u32>> = Vec::new();
    messages.push(m0);
    messages.push(m1);
    messages.push(m2);
    let rep = Repetition {
        commitments,
        outputs,
        challenge: 0,
        key: *k0,
        key_next: *k1,
        input: Vec::new(),
        view_next_input: Vec::new(),
        view_next_messages: Vec::new(),
    };
    proof {
        let ss = views_of(shares@);
        let ms = views_of(messages@);
        assert(ss =~= seq![drawn_share(c, k0@), drawn_share(c, k1@), xor_words(x@, drawn_share(c, k0@), drawn_share(c, k1@))]);
        assert(ms[0] == p0.view.messages@);
        assert(ms[1] == p1.view.messages@);
        assert(ms[2] == p2.view.messages@);
        assert(ms =~= seq![p0.view.messages@, p1.view.messages@, p2.view.messages@]);
        let ks = seq![k0@, k1@, k2@];
        assert forall|i: int| 0 <= i < 3 implies (#[trigger] rep.commitments@[i])@ == commitment_of(ks[i], ss[i], ms[i])
            && rep.commitments@[i]@.len() == 32 && rep.outputs@[i]@ == c.output_spec(ss[i], ms[i])
            && rep.outputs@[i]@.len() == c.output_len_spec() by {
            assert(i == 0 || i == 1 || i == 2);
        }
    }
    (rep, shares, messages)
}

/// Opens a run for challenge `e`: reveals the keys of parties `e` and `e + 1`, the view of party
/// `e + 1`, and party 2's input share when `e` is 2.
fn open_repetition(
    run: &Repetition,
    shares: &Vec<Vec<u32>>,
    messages: &Vec<Vec<u32>>,
    e: u8,
    k0: &[u8; 32],
    k1: &[u8; 32],
    k2: &[u8; 32],
) -> (r: Repetition)
    requires
        e < 3,
        run.commitments@.len() == 3,
        run.outputs@.len() == 3,
        shares@.len() == 3,
        messages@.len() == 3,
    ensures
        r.challenge == e,
        r.commitments@.len() == 3,
        r.outputs@.len() == 3,
        forall|i: int| 0 <= i < 3 ==> (#[trigger] r.commitments@[i])@ == run.commitments@[i]@,
        forall|i: int| 0 <= i < 3 ==> (#[trigger] r.outputs@[i])@ == run.outputs@[i]@,
        r.key@ == seq![k0@, k1@, k2@][e as int],
        r.key_next@ == seq![k0@, k1@, k2@][next_index(e as int)],
        r.view_next_input@ == shares@[next_index(e as int)]@,
        r.view_next_messages@ == messages@[next_index(e as int)]@,
        r.input@ == (if e == 2 { shares@[2]@ } else { Seq::<u32>::empty() }),
{
    let e_next: usize = if e == 2 {
        0
    } else {
        e as usize + 1
    };
    let key = if e == 0 {
        *k0
    } else if e == 1 {
        *k1
    } else {
        *k2
    };
    let key_next = if e_next == 0 {
        *k0
    } else if e_next == 1 {
        *k1
    } else {
        *k2
    };
    let mut commitments: Vec<Vec<u8>> = Vec::new();
    commitments.push(copy_bytes(&run.commitments[0]));
    commitments.push(copy_bytes(&run.commitments[1]));
    commitments.push(copy_bytes(&run.commitments[2]));
    let mut outputs: Vec<Vec<u32>> = Vec::new();
    outputs.push(copy_words(&run.outputs[0]));
    outputs.push(copy_words(&run.outputs[1]));
    outputs.push(copy_words(&run.outputs[2]));
    let input = if e == 2 {
        copy_words(&shares[2])
    } else {
        Vec::new()
    };
    let r = Repetition {
        commitments,
        outputs,
        challenge: e,
        key,
        key_next,
        input,
        view_next_input: copy_words(&shares[e_next]),
        view_next_messages: copy_words(&messages[e_next]),
    };
    proof {
        assert forall|i: int| 0 <= i < 3 implies (#[trigger] r.commitments@[i])@ == run.commitments@[i]@
            && r.outputs@[i]@ == run.outputs@[i]@ by {
            assert(i == 0 || i == 1 || i == 2);
        }
        assert(e_next as int == next_index(e as int));
    }
    r
}

proof fn lemma_opened_is_honest<C: Circuit>(
    run: Repetition,
    rep: Repetition,
    shares: Seq<Seq<u32>>,
    messages: Seq<Seq<u32>>,
    c: &C,
    x: Seq<u32>,
    k0: Seq<u8>,
    k1: Seq<u8>,
    k2: Seq<u8>,
)
    requires
        run_ok(run, shares, messages, c, x, k0, k1, k2),
        rep.challenge < 3,
        rep.commitments@.len() == 3,
        rep.outputs@.len() == 3,
        forall|i: int| 0 <= i < 3 ==> (#[trigger] rep.commitments@[i])@ == run.commitments@[i]@,
        forall|i: int| 0 <= i < 3 ==> (#[trigger] rep.outputs@[i])@ == run.outputs@[i]@,
        rep.key@ == seq![k0, k1, k2][rep.challenge as int],
        rep.key_next@ == seq![k0, k1, k2][next_index(rep.challenge as int)],
        rep.view_next_input@ == shares[next_index(rep.challenge as int)],
        rep.view_next_messages@ == messages[next_index(rep.challenge as int)],
        rep.input@ == (if rep.challenge == 2 { shares[2] } else { Seq::<u32>::empty() }),
    ensures
        honest_rep(rep, c, x, k0, k1, k2, messages[0], messages[1], messages[2]),
{
    assert(seq![messages[0], messages[1], messages[2]] =~= messages);
    assert(rep.outputs@[0]@ == run.outputs@[0]@);
    assert(rep.outputs@[1]@ == run.outputs@[1]@);
    assert(rep.outputs@[2]@ == run.outputs@[2]@);
}

/// Makes a proof that the prover knows `input` with `C(input) = output`, with the keys given:
/// three per repetition, in order. The proof depends on the input and the keys alone.
///
/// Fails with `OutputMismatch` when `C(input)` is not `output`, and with `ChallengeMismatch`
/// exactly when the challenge stream drawn from the honest commitments yields too few usable
/// bytes (fewer than `n` of `2n + 64` bytes below 255, which does not happen in practice).
pub fn prove_with_keys<C: Circuit>(c: &C, input: &Vec<u32>, output: &Vec<u32>, keys: &Vec<[u8; 32]>) -> (r: Result<
    Proof,
    Error,
>)
    requires
        input@.len() == c.input_len_spec(),
        tape_len_of(c) <= usize::MAX / 4,
        keys@.len() % 3 == 0,
        0 < keys@.len() / 3 <= max_repetitions(),
    ensures
        r is Ok ==> {
            &&& honest(r->Ok_0, c, input@, keys@)
            &&& accepts(r->Ok_0, c, output@)
            &&& r->Ok_0.repetitions@.len() == keys@.len() / 3
        },
        r is Ok <==> c.compute_spec(input@) == output@ && challenges_spec(
            honest_commitment_bytes(c, input@, keys@),
            (keys@.len() / 3) as nat,
        ) is Some,
        r is Err ==> r->Err_0 == Error::OutputMismatch || r->Err_0 == Error::ChallengeMismatch,
        r is Err && r->Err_0 == Error::OutputMismatch <==> c.compute_spec(input@) != output@,
{
    let y = c.compute(input);
    if !words_equal(&y, output) {
        return Err(Error::OutputMismatch);
    }
    let len = keys.len();
    let n = len / 3;
    let ghost x = input@;
    let ghost ks = keys@;

    let mut runs: Vec<Repetition> = Vec::new();
    let mut all_shares: Vec<Vec<Vec<u32>>> = Vec::new();
    let mut all_messages: Vec<Vec<Vec<u32>>> = Vec::new();
    let mut j: usize = 0;
    while j < n
        invariant
            len == keys@.len(),
            n == keys@.len() / 3,
            keys@.len() % 3 == 0,
            x == input@,
            x.len() == c.input_len_spec(),
            tape_len_of(c) <= usize::MAX / 4,
            j <= n,
            runs@.len() == j,
            all_shares@.len() == j,
            all_messages@.len() == j,
            forall|k: int|
                0 <= k < j ==> run_ok(
                    #[trigger] runs@[k],
                    views_of(all_shares@[k]@),
                    views_of(all_messages@[k]@),
                    c,
                    x,
                    keys@[3 * k]@,
                    keys@[3 * k + 1]@,
                    keys@[3 * k + 2]@,
                ),
        decreases n - j,
    {
        assert(3 * j + 2 < keys@.len()) by (nonlinear_arith)
            requires
                j < n,
                n == keys@.len() / 3,
                keys@.len() % 3 == 0,
        ;
        let (run, shares, messages) = run_repetition(c, input, &keys[3 * j], &keys[3 * j + 1], &keys[3 * j + 2]);
        runs.push(run);
        all_shares.push(shares);
        all_messages.push(messages);
        j = j + 1;
    }

    assert forall|k: int| 0 <= k < runs@.len() implies (#[trigger] runs@[k]).commitments@.len() == 3 by {
        assert(run_ok(runs@[k], views_of(all_shares@[k]@), views_of(all_messages@[k]@), c, x, keys@[3 * k]@, keys@[3 * k + 1]@, keys@[3 * k + 2]@));
    }
    let bytes = crate::verify::commitment_concat(&runs);
    proof {
        let honest_triples = Seq::new(
            keys@.len() / 3,
            |k: int| honest_triple(c, x, keys@[3 * k]@, keys@[3 * k + 1]@, keys@[3 * k + 2]@),
        );
        assert forall|k: int| 0 <= k < n implies #[trigger] commitment_triples(runs@)[k] == honest_triples[k] by {
            let (k0, k1, k2) = (keys@[3 * k]@, keys@[3 * k + 1]@, keys@[3 * k + 2]@);
            assert(run_ok(runs@[k], views_of(all_shares@[k]@), views_of(all_messages@[k]@), c, x, k0, k1, k2));
            assert(runs@[k].commitments@[0]@ == honest_triples[k][0]);
            assert(runs@[k].commitments@[1]@ == honest_triples[k][1]);
            assert(runs@[k].commitments@[2]@ == honest_triples[k][2]);
            assert(commitment_triples(runs@)[k] =~= honest_triples[k]);
        }
        assert(commitment_triples(runs@) =~= honest_triples);
        assert(bytes@ == honest_commitment_bytes(c, x, keys@));
    }
    let challenges = match derive_challenges(&bytes, n) {
        Some(cs) => cs,
        None => {
            return Err(Error::ChallengeMismatch);
        },
    };

    let mut reps: Vec<Repetition> = Vec::new();
    let mut j: usize = 0;
    while j < n
        invariant
            len == keys@.len(),
            n == keys@.len() / 3,
            keys@.len() % 3 == 0,
            x == input@,
            j <= n,
            runs@.len() == n,
            all_shares@.len() == n,
            all_messages@.len() == n,
            challenges@.len() == n,
            forall|k: int| 0 <= k < n ==> #[trigger] challenges@[k] < 3,
            reps@.len() == j,
            forall|k: int|
                0 <= k < n ==> run_ok(
                    #[trigger] runs@[k],
                    views_of(all_shares@[k]@),
                    views_of(all_messages@[k]@),
                    c,
                    x,
                    keys@[3 * k]@,
                    keys@[3 * k + 1]@,
                    keys@[3 * k + 2]@,
                ),
            forall|k: int|
                0 <= k < j ==> {
                    let ms = views_of(all_messages@[k]@);
                    &&& honest_rep(
                        #[trigger] reps@[k],
                        c,
                        x,
                        keys@[3 * k]@,
                        keys@[3 * k + 1]@,
                        keys@[3 * k + 2]@,
                        ms[0],
                        ms[1],
                        ms[2],
                    )
                    &&& reps@[k].challenge == challenges@[k]
                    &&& forall|i: int| 0 <= i < 3 ==> (#[trigger] reps@[k].commitments@[i])@ == runs@[k].commitments@[i]@
                },
        decreases n - j,
    {
        assert(3 * j + 2 < keys@.len()) by (nonlinear_arith)
            requires
                j < n,
                n == keys@.len() / 3,
                keys@.len() % 3 == 0,
        ;
        let ghost k = j as int;
        assert(run_ok(runs@[k], views_of(all_shares@[k]@), views_of(all_messages@[k]@), c, x, keys@[3 * k]@, keys@[3 * k + 1]@, keys@[3 * k + 2]@));
        let rep = open_repetition(
            &runs[j],
            &all_shares[j],
            &all_messages[j],
            challenges[j],
            &keys[3 * j],
            &keys[3 * j + 1],
            &keys[3 * j + 2],
        );
        proof {
            lemma_opened_is_honest(
                runs@[k],
                rep,
                views_of(all_shares@[k]@),
                views_of(all_messages@[k]@),
                c,
                x,
                keys@[3 * k]@,
                keys@[3 * k + 1]@,
                keys@[3 * k + 2]@,
            );
        }
        reps.push(rep);
        j = j + 1;
    }
    let proof = Proof { repetitions: reps };
    proof {
        assert(commitment_triples(proof.repetitions@) =~~= commitment_triples(runs@));
        assert forall|k: int| 0 <= k < n implies #[trigger] honest_rep_at(proof, c, x, keys@, k) by {
            let ms = views_of(all_messages@[k]@);
            assert(honest_rep(proof.repetitions@[k], c, x, keys@[3 * k]@, keys@[3 * k + 1]@, keys@[3 * k + 2]@, ms[0], ms[1], ms[2]));
        }
        assert(challenges_ok(proof));
        lemma_completeness(proof, c, x, keys@);
        assert(c.compute_spec(x) == output@);
    }
    Ok(proof)
}

/// Makes a proof for `sigma` bits of soundness, drawing three fresh random keys for each
/// repetition.
pub fn prove<C: Circuit>(c: &C, input: &Vec<u32>, output: &Vec<u32>, sigma: usize) -> (r: Result<Proof, Error>)
    requires
        input@.len() == c.input_len_spec(),
        tape_len_of(c) <= usize::MAX / 4,
        0 < repetitions_for(sigma as nat) <= max_repetitions(),
    ensures
        r is Ok ==> accepts(r->Ok_0, c, output@) && r->Ok_0.repetitions@.len() == repetitions_for(sigma as nat),
        r is Err ==> r->Err_0 == Error::OutputMismatch || r->Err_0 == Error::ChallengeMismatch,
        r is Err && r->Err_0 == Error::OutputMismatch <==> c.compute_spec(input@) != output@,
{
    let n = num_of_repetitions_given_desired_security(sigma);
    let mut keys: Vec<[u8; 32]> = Vec::new();
    let mut i: usize = 0;
    while i < 3 * n
        invariant
            n <= max_repetitions(),
            i <= 3 * n,
            keys@.len() == i,
        decreases 3 * n - i,
    {
        keys.push(random_key());
        i = i + 1;
    }
    assert(keys@.len() % 3 == 0 && keys@.len() / 3 == n) by (nonlinear_arith)
        requires
            keys@.len() == 3 * n,
    ;
    prove_with_keys(c, input, output, &keys)
}

} // verus!
