use zkboo::circuit::{
    AddModKCircuit, ChCircuit, Circuit, DigestCircuit, MajCircuit, SimpleCircuit, Temp2Circuit,
};
use zkboo::error::Error;
use zkboo::num_of_repetitions_given_desired_security;
use zkboo::protocol::Proof;
use zkboo::prove::{prove, prove_with_keys};
use zkboo::verify::verify;

fn fixed_keys(n: usize, salt: u8) -> Vec<[u8; 32]> {
    (0..3 * n)
        .map(|i| {
            let mut k = [0u8; 32];
            k[0] = salt;
            k[1] = (i & 0xff) as u8;
            k[2] = (i >> 8) as u8;
            k[31] = 0x5a;
            k
        })
        .collect()
}

fn toy_proof() -> (SimpleCircuit, Vec<u32>, Proof) {
    let circuit = SimpleCircuit;
    let input: Vec<u32> = vec![5, 4, 7, 2, 9];
    let output = circuit.compute(&input);
    let proof = prove(&circuit, &input, &output, 40).unwrap();
    (circuit, output, proof)
}

#[test]
fn test_constants_from_zkboo_paper() {
    let sigma_1 = 40;
    let sigma_2 = 80;
    let n_1 = num_of_repetitions_given_desired_security(sigma_1);
    assert_eq!(n_1, 69);

    let n_2 = num_of_repetitions_given_desired_security(sigma_2);
    assert_eq!(n_2, 137);
}

#[test]
fn repetitions_small_values() {
    assert_eq!(num_of_repetitions_given_desired_security(0), 0);
    assert_eq!(num_of_repetitions_given_desired_security(1), 2);
    assert_eq!(num_of_repetitions_given_desired_security(128), 219);
}

#[test]
fn test_full_run() {
    let circuit = SimpleCircuit;
    let input: Vec<u32> = vec![5, 4, 7, 2, 9];
    let output = circuit.compute(&input);
    assert_eq!(output, vec![1]);

    let proof = prove(&circuit, &input, &output, 40).unwrap();
    assert_eq!(proof.repetitions.len(), 69);
    verify(&proof, &circuit, &output).unwrap();
}

#[test]
fn add_mod_test_circuit() {
    let input: Vec<u32> = vec![4294];
    let circuit = AddModKCircuit { k: 3490903 };
    let output = circuit.compute(&input);
    assert_eq!(output, vec![3495197]);

    let proof = prove(&circuit, &input, &output, 80).unwrap();
    assert_eq!(proof.repetitions.len(), 137);
    verify(&proof, &circuit, &output).unwrap();
}

#[test]
fn ch_test_circuit() {
    let input: Vec<u32> = vec![381321, 32131, 328131];
    let circuit = ChCircuit;
    let output = circuit.compute(&input);
    assert_eq!(output, vec![20931]);

    let proof = prove(&circuit, &input, &output, 80).unwrap();
    verify(&proof, &circuit, &output).unwrap();
}

#[test]
fn maj_test_circuit() {
    let input: Vec<u32> = vec![381321, 32131, 328131];
    let circuit = MajCircuit;
    let output = circuit.compute(&input);
    assert_eq!(output, vec![348547]);

    let proof = prove(&circuit, &input, &output, 80).unwrap();
    verify(&proof, &circuit, &output).unwrap();
}

#[test]
fn temp2_test_circuit() {
    let input: Vec<u32> = vec![381321, 32131];
    let circuit = Temp2Circuit;
    let output = circuit.compute(&input);
    assert_eq!(output, vec![413452]);

    let proof = prove(&circuit, &input, &output, 80).unwrap();
    verify(&proof, &circuit, &output).unwrap();
}

#[test]
fn final_digest_test_circuit() {
    // The compression output for the one-block message "abc": the canonical digest minus the
    // initial hash value, word by word.
    let compression_output: Vec<u32> = vec![
        0x506e3058, 0xd39a2165, 0x04d24d6c, 0xb85e2ce9, 0x5ef50f24, 0xfb121210, 0x948d25b6,
        0x961f4894,
    ];
    let expected_output: Vec<u32> = vec![
        0xba7816bf, 0x8f01cfea, 0x414140de, 0x5dae2223, 0xb00361a3, 0x96177a9c, 0xb410ff61,
        0xf20015ad,
    ];
    let circuit = DigestCircuit;
    let output = circuit.compute(&compression_output);
    for (&word, &expected_word) in output.iter().zip(expected_output.iter()) {
        assert_eq!(word, expected_word);
    }

    let proof = prove(&circuit, &compression_output, &output, 80).unwrap();
    verify(&proof, &circuit, &output).unwrap();
}

#[test]
fn prove_rejects_wrong_output() {
    let circuit = SimpleCircuit;
    let input: Vec<u32> = vec![5, 4, 7, 2, 9];
    assert_eq!(prove(&circuit, &input, &vec![0], 40).unwrap_err(), Error::OutputMismatch);
}

#[test]
fn proofs_are_deterministic_in_the_keys() {
    let circuit = SimpleCircuit;
    let input: Vec<u32> = vec![5, 4, 7, 2, 9];
    let output = circuit.compute(&input);
    let keys = fixed_keys(69, 1);
    let a = prove_with_keys(&circuit, &input, &output, &keys).unwrap();
    let b = prove_with_keys(&circuit, &input, &output, &keys).unwrap();
    assert_eq!(a, b);
    verify(&a, &circuit, &output).unwrap();

    let c = prove_with_keys(&circuit, &input, &output, &fixed_keys(69, 2)).unwrap();
    assert_ne!(a, c);
}

#[test]
fn flipped_commitment_bit_is_rejected() {
    let (circuit, output, proof) = toy_proof();
    for j in 0..proof.repetitions.len() {
        for i in 0..3 {
            let mut bad = proof.clone();
            bad.repetitions[j].commitments[i][7] ^= 0x10;
            assert!(verify(&bad, &circuit, &output).is_err());
        }
    }
    for i in 0..3 {
        for byte in 0..32 {
            for bit in 0..8 {
                let mut bad = proof.clone();
                bad.repetitions[0].commitments[i][byte] ^= 1 << bit;
                assert!(verify(&bad, &circuit, &output).is_err());
            }
        }
    }
}

#[test]
fn flipped_commitment_byte_is_rejected() {
    let (circuit, output, proof) = toy_proof();
    for i in 0..3 {
        for byte in 0..32 {
            let mut bad = proof.clone();
            bad.repetitions[5].commitments[i][byte] = !bad.repetitions[5].commitments[i][byte];
            assert!(verify(&bad, &circuit, &output).is_err());
        }
    }
}

#[test]
fn unopened_commitment_change_gives_challenge_mismatch() {
    let (circuit, output, proof) = toy_proof();
    let mut bad = proof.clone();
    let e = bad.repetitions[0].challenge as usize;
    bad.repetitions[0].commitments[(e + 2) % 3][0] ^= 1;
    assert_eq!(verify(&bad, &circuit, &output).unwrap_err(), Error::ChallengeMismatch);
}

#[test]
fn opened_commitment_change_gives_commitment_mismatch() {
    let (circuit, output, proof) = toy_proof();
    let mut bad = proof.clone();
    let e = bad.repetitions[0].challenge as usize;
    bad.repetitions[0].commitments[e][0] ^= 1;
    assert_eq!(verify(&bad, &circuit, &output).unwrap_err(), Error::CommitmentMismatch);
}

#[test]
fn swapped_opened_views_are_rejected() {
    let (circuit, output, proof) = toy_proof();
    let mut bad = proof.clone();
    let rep = &mut bad.repetitions[0];
    std::mem::swap(&mut rep.key, &mut rep.key_next);
    let err = verify(&bad, &circuit, &output).unwrap_err();
    assert!(err == Error::CommitmentMismatch || err == Error::ChallengeMismatch);

    let mut bad = proof.clone();
    let first = bad.repetitions[0].clone();
    let second = bad.repetitions[1].clone();
    bad.repetitions[0].view_next_messages = second.view_next_messages;
    bad.repetitions[1].view_next_messages = first.view_next_messages;
    bad.repetitions[0].view_next_input = second.view_next_input;
    bad.repetitions[1].view_next_input = first.view_next_input;
    let err = verify(&bad, &circuit, &output).unwrap_err();
    assert!(err == Error::CommitmentMismatch || err == Error::ChallengeMismatch);

    let mut bad = proof.clone();
    let rep = &mut bad.repetitions[2];
    rep.challenge = (rep.challenge + 1) % 3;
    if rep.challenge == 2 {
        rep.input = vec![0; 5];
    } else {
        rep.input = vec![];
    }
    let err = verify(&bad, &circuit, &output).unwrap_err();
    assert!(err == Error::CommitmentMismatch || err == Error::ChallengeMismatch);
}

#[test]
fn flipped_output_bit_is_rejected() {
    let (circuit, output, proof) = toy_proof();
    for bit in 0..32 {
        let mut y = output.clone();
        y[0] ^= 1 << bit;
        assert_eq!(
            verify(&proof, &circuit, &y).unwrap_err(),
            Error::OutputReconstructionMismatch
        );
    }
}

#[test]
fn malformed_proofs_are_rejected() {
    let (circuit, output, proof) = toy_proof();
    let empty = Proof { repetitions: vec![] };
    assert_eq!(verify(&empty, &circuit, &output).unwrap_err(), Error::MalformedProof);

    let mut bad = proof.clone();
    bad.repetitions[3].challenge = 3;
    assert_eq!(verify(&bad, &circuit, &output).unwrap_err(), Error::MalformedProof);

    let mut bad = proof.clone();
    bad.repetitions[0].view_next_messages.pop();
    assert_eq!(verify(&bad, &circuit, &output).unwrap_err(), Error::MalformedProof);

    let mut bad = proof.clone();
    bad.repetitions[0].commitments[1].push(0);
    assert_eq!(verify(&bad, &circuit, &output).unwrap_err(), Error::MalformedProof);

    let mut bad = proof.clone();
    bad.repetitions[0].outputs.pop();
    assert_eq!(verify(&bad, &circuit, &output).unwrap_err(), Error::MalformedProof);

    let other = AddModKCircuit { k: 1 };
    assert_eq!(verify(&proof, &other, &output).unwrap_err(), Error::MalformedProof);
}
