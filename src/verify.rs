use vstd::prelude::*;
use vstd::view::View as _;

use crate::circuit::Circuit;
use crate::commitment::commit;
use crate::encoding::{bytes_equal, copy_words, words_equal};
use crate::error::Error;
use crate::fiat_shamir::{challenges_spec, derive_challenges};
use crate::gadgets::{new_messages, unread_messages, unread_tape, xor3};
use crate::party::Party;
use crate::protocol::{
    accepts, challenges_ok, commitment_bytes, commitment_triples, drawn_share, flatten_triples,
    gate_tape, max_repetitions, next_index, opened_share, recomputed_messages, rep_commitments_ok,
    rep_outputs_ok, rep_well_formed, tape_len_of, well_formed, Proof, Repetition,
};
use crate::tape::Tape;
use crate::view::View;

verus! {

/// Whether a repetition has the shape that circuit `c` asks for.
pub fn rep_shape_ok<C: Circuit>(rep: &Repetition, c: &C) -> (r: bool)
    ensures
        r == rep_well_formed(*rep, c),
{
    let input_len = c.party_input_len();
    let output_len = c.party_output_len();
    let gates = c.num_of_mul_gates();
    if rep.commitments.len() != 3 || rep.outputs.len() != 3 {
        return false;
    }
    if rep.commitments[0].len() != 32 || rep.commitments[1].len() != 32 || rep.commitments[2].len() != 32 {
        return false;
    }
    if rep.outputs[0].len() != output_len || rep.outputs[1].len() != output_len || rep.outputs[2].len()
        != output_len {
        return false;
    }
    assert forall|i: int| 0 <= i < 3 implies (#[trigger] rep.commitments@[i])@.len() == 32 && rep.outputs@[i]@.len() == output_len by {
        assert(i == 0 || i == 1 || i == 2);
    }
    if rep.challenge >= 3 {
        return false;
    }
    if rep.view_next_input.len() != input_len || rep.view_next_messages.len() != gates {
        return false;
    }
    if rep.challenge == 2 {
        rep.input.len() == input_len
    } else {
        rep.input.len() == 0
    }
}

/// Whether a proof has the shape that circuit `c` asks for: at least one and at most
/// `usize::MAX / 128` repetitions, each well formed.
pub fn check_structure<C: Circuit>(proof: &Proof, c: &C) -> (r: bool)
    ensures
        r == well_formed(*proof, c),
{
    let n = proof.repetitions.len();
    if n == 0 || n > usize::MAX / 128 {
        return false;
    }
    let mut j: usize = 0;
    while j < n
        invariant
            n == proof.repetitions@.len(),
            j <= n,
            forall|k: int| 0 <= k < j ==> rep_well_formed(#[trigger] proof.repetitions@[k], c),
        decreases n - j,
    {
        if !rep_shape_ok(&proof.repetitions[j], c) {
            return false;
        }
        j = j + 1;
    }
    true
}

/// Appends the bytes of `v` to `out`.
fn append_bytes(out: &mut Vec<u8>, v: &Vec<u8>)
    ensures
        final(out)@ == old(out)@ + v@,
{
    let mut i: usize = 0;
    while i < v.len()
        invariant
            i <= v@.len(),
            out@ == old(out)@ + v@.take(i as int),
        decreases v@.len() - i,
    {
        out.push(v[i]);
        i = i + 1;
        assert(out@ =~= old(out)@ + v@.take(i as int));
    }
    assert(v@.take(v@.len() as int) =~= v@);
}

/// The concatenation of all commitments of the repetitions, in order.
pub fn commitment_concat(reps: &Vec<Repetition>) -> (r: Vec<u8>)
    requires
        forall|j: int| 0 <= j < reps@.len() ==> (#[trigger] reps@[j]).commitments@.len() == 3,
    ensures
        r@ == commitment_bytes(reps@),
{
    let mut out: Vec<u8> = Vec::new();
    let mut j: usize = 0;
    while j < reps.len()
        invariant
            j <= reps@.len(),
            forall|k: int| 0 <= k < reps@.len() ==> (#[trigger] reps@[k]).commitments@.len() == 3,
            out@ == flatten_triples(commitment_triples(reps@).take(j as int)),
        decreases reps@.len() - j,
    {
        let rep = &reps[j];
        append_bytes(&mut out, &rep.commitments[0]);
        append_bytes(&mut out, &rep.commitments[1]);
        append_bytes(&mut out, &rep.commitments[2]);
        proof {
            let t = commitment_triples(reps@).take(j as int + 1);
            assert(t.drop_last() =~= commitment_triples(reps@).take(j as int));
            assert(t.last() == commitment_triples(reps@)[j as int]);
        }
        j = j + 1;
    }
    assert(commitment_triples(reps@).take(reps@.len() as int) =~= commitment_triples(reps@));
    out
}

/// Checks one repetition: rebuilds the tapes of parties `e` and `e + 1` from their keys, replays
/// the circuit on them, and compares the recomputed commitments and outputs with the proof.
pub fn verify_repetition<C: Circuit>(rep: &Repetition, c: &C, output: &Vec<u32>) -> (r: Result<(), Error>)
    requires
        rep_well_formed(*rep, c),
        tape_len_of(c) <= usize::MAX / 4,
    ensures
        r is Ok <==> rep_commitments_ok(*rep, c) && rep_outputs_ok(*rep, c, output@),
        r is Err ==> {
            &&& r->Err_0 == Error::CommitmentMismatch <==> !rep_commitments_ok(*rep, c)
            &&& r->Err_0 == Error::CommitmentMismatch || r->Err_0 == Error::OutputReconstructionMismatch
        },
{
    let input_len = c.party_input_len();
    let gates = c.num_of_mul_gates();
    let tape_len = input_len + gates;
    let e: usize = rep.challenge as usize;
    let e_next: usize = if e == 2 {
        0
    } else {
        e + 1
    };

    let mut tape = Tape::from_key(&rep.key, tape_len);
    let drawn = tape.read_words(input_len);
    let share = if e < 2 {
        drawn
    } else {
        copy_words(&rep.input)
    };
    let mut tape_next = Tape::from_key(&rep.key_next, tape_len);
    let _skipped = tape_next.read_words(input_len);
    assert(drawn@ =~= drawn_share(c, rep.key@));
    assert(share@ == opened_share(*rep, c));

    let mut p = Party::from_tape_and_view(View::new(share), tape);
    let mut p_next = Party::from_tape_and_view(
        View::with_messages(copy_words(&rep.view_next_input), copy_words(&rep.view_next_messages)),
        tape_next,
    );
    let ghost (bp, bn) = (p, p_next);
    assert(unread_tape(bp, gates as int) =~= gate_tape(c, rep.key@));
    assert(unread_tape(bn, gates as int) =~= gate_tape(c, rep.key_next@));
    assert(unread_messages(bn, gates as int) =~= rep.view_next_messages@);
    let (o, o_next) = match c.simulate_two_parties(&mut p, &mut p_next) {
        Ok(v) => v,
        Err(err) => {
            return Err(err);
        },
    };
    assert(new_messages(bp, p) =~= p.view.messages@);
    assert(p.view.messages@ == recomputed_messages(*rep, c));

    let commitment = commit(&rep.key, &p.view.input, &p.view.messages);
    let commitment_next = commit(&rep.key_next, &rep.view_next_input, &rep.view_next_messages);
    assert(e_next as int == next_index(e as int));
    if !bytes_equal(&commitment, &rep.commitments[e]) || !bytes_equal(&commitment_next, &rep.commitments[e_next]) {
        return Err(Error::CommitmentMismatch);
    }
    if !words_equal(&o, &rep.outputs[e]) || !words_equal(&o_next, &rep.outputs[e_next]) {
        return Err(Error::OutputReconstructionMismatch);
    }
    let reconstructed = xor3(&rep.outputs[0], &rep.outputs[1], &rep.outputs[2]);
    if !words_equal(&reconstructed, output) {
        return Err(Error::OutputReconstructionMismatch);
    }
    Ok(())
}

/// Verifies a proof that the prover knows an input on which circuit `c` outputs `output`.
///
/// The proof is first checked for shape (`MalformedProof`); then each repetition is replayed in
/// order (`CommitmentMismatch`, then `OutputReconstructionMismatch`); last, the challenges are
/// derived again from all commitments and compared with the opened parties (`ChallengeMismatch`).
pub fn verify<C: Circuit>(proof: &Proof, c: &C, output: &Vec<u32>) -> (r: Result<(), Error>)
    requires
        tape_len_of(c) <= usize::MAX / 4,
    ensures
        r is Ok <==> accepts(*proof, c, output@),
        r is Err && r->Err_0 == Error::MalformedProof <==> !well_formed(*proof, c),
        r is Err && r->Err_0 == Error::CommitmentMismatch ==> exists|j: int|
            0 <= j < proof.repetitions@.len() && !rep_commitments_ok(#[trigger] proof.repetitions@[j], c),
        r is Err && r->Err_0 == Error::OutputReconstructionMismatch ==> exists|j: int|
            0 <= j < proof.repetitions@.len() && !rep_outputs_ok(#[trigger] proof.repetitions@[j], c, output@),
        r is Err && r->Err_0 == Error::ChallengeMismatch ==> !challenges_ok(*proof),
        r is Err ==> r->Err_0 != Error::OutputMismatch && r->Err_0 != Error::MpcMessageMismatch,
{
    if !check_structure(proof, c) {
        return Err(Error::MalformedProof);
    }
    let n = proof.repetitions.len();
    let mut j: usize = 0;
    while j < n
        invariant
            n == proof.repetitions@.len(),
            j <= n,
            well_formed(*proof, c),
            tape_len_of(c) <= usize::MAX / 4,
            forall|k: int|
                0 <= k < j ==> rep_commitments_ok(#[trigger] proof.repetitions@[k], c) && rep_outputs_ok(
                    proof.repetitions@[k],
                    c,
                    output@,
                ),
        decreases n - j,
    {
        let res = verify_repetition(&proof.repetitions[j], c, output);
        if res.is_err() {
            proof {
                let k = j as int;
                assert(!(rep_commitments_ok(proof.repetitions@[k], c) && rep_outputs_ok(proof.repetitions@[k], c, output@)));
            }
            return res;
        }
        j = j + 1;
    }
    assert(forall|k: int| 0 <= k < n ==> (#[trigger] proof.repetitions@[k]).commitments@.len() == 3) by {
        assert forall|k: int| 0 <= k < n implies (#[trigger] proof.repetitions@[k]).commitments@.len() == 3 by {
            assert(rep_well_formed(proof.repetitions@[k], c));
        }
    }
    let bytes = commitment_concat(&proof.repetitions);
    let challenges = match derive_challenges(&bytes, n) {
        Some(cs) => cs,
        None => {
            return Err(Error::ChallengeMismatch);
        },
    };
    let mut j: usize = 0;
    while j < n
        invariant
            n == proof.repetitions@.len(),
            j <= n,
            challenges@ == challenges_spec(commitment_bytes(proof.repetitions@), n as nat)->Some_0,
            challenges_spec(commitment_bytes(proof.repetitions@), n as nat) is Some,
            challenges@.len() == n,
            well_formed(*proof, c),
            forall|k: int|
                0 <= k < n ==> rep_commitments_ok(#[trigger] proof.repetitions@[k], c) && rep_outputs_ok(
                    proof.repetitions@[k],
                    c,
                    output@,
                ),
            forall|k: int| 0 <= k < j ==> (#[trigger] proof.repetitions@[k]).challenge == challenges@[k],
        decreases n - j,
    {
        if challenges[j] != proof.repetitions[j].challenge {
            return Err(Error::ChallengeMismatch);
        }
        j = j + 1;
    }
    Ok(())
}

} // verus!
