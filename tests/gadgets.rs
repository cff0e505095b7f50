use zkboo::add_mod::{
    add_mod_verify, add_mod_verify_k, adder, bit_and, mpc_add_mod, mpc_add_mod_k,
};
use zkboo::circuit::{Circuit, SimpleCircuit};
use zkboo::commitment::commit;
use zkboo::encoding::words_from_le_bytes;
use zkboo::error::Error;
use zkboo::fiat_shamir::{challenges_from_stream, derive_challenges};
use zkboo::gadgets::{
    mpc_and, mpc_and_verify, mpc_rotate_left, mpc_rotate_right, mpc_shift_right, mpc_xor,
};
use zkboo::party::Party;
use zkboo::sha256::{
    ch, ch_verify, digest, init_iv, maj, maj_verify, mpc_ch, mpc_digest, mpc_digest_verify,
    mpc_maj, mpc_temp2, mpc_temp2_verify, temp2,
};
use zkboo::tape::Tape;
use zkboo::view::View;
use zkboo::word::{rotate_left, rotate_right};

fn party(input: Vec<u32>, tape: Vec<u32>) -> Party {
    Party::from_tape_and_view(View::new(input), Tape::new(tape))
}

fn replay_party(input: Vec<u32>, tape: Vec<u32>, messages: Vec<u32>) -> Party {
    Party::from_tape_and_view(View::with_messages(input, messages), Tape::new(tape))
}

const R1: u32 = 0x1234_5678;
const R2: u32 = 0x9abc_def0;
const R3: u32 = 0x0f0f_a5a5;

#[test]
fn adder_adds_modulo_2_32() {
    assert_eq!(adder(4294, 3490903), 3495197);
    assert_eq!(adder(u32::MAX, 1), 0);
    assert_eq!(adder(0x8000_0000, 0x8000_0000), 0);
    assert_eq!(adder(0xffff_ffff, 0xffff_ffff), 0xffff_fffe);
    assert_eq!(adder(0, 0), 0);
    assert_eq!(temp2(381321, 32131), 413452);
}

#[test]
fn ch_and_maj_values() {
    assert_eq!(ch(381321, 32131, 328131), 20931);
    assert_eq!(maj(381321, 32131, 328131), 348547);
    assert_eq!(ch(0xffff_ffff, 1, 2), 1);
    assert_eq!(ch(0, 1, 2), 2);
    assert_eq!(maj(1, 1, 0), 1);
}

#[test]
fn digest_adds_initial_hash_value() {
    assert_eq!(init_iv()[0], 0x6a09e667);
    let out = digest(&[0; 8]);
    assert_eq!(out, init_iv().to_vec());
    let out = digest(&[1, 0, 0, 0, 0, 0, 0, 0xa3f_32e6]);
    assert_eq!(out[0], 0x6a09e668);
    assert_eq!(out[7], 0x5be0cd19u32.wrapping_add(0xa3f_32e6));
}

#[test]
fn xor_shares_sum() {
    let (a, b, c) = mpc_xor((1, 2), (4, 8), (16, 32));
    assert_eq!((a, b, c), (3, 12, 48));
    assert_eq!(a ^ b ^ c, (1 ^ 4 ^ 16) ^ (2 ^ 8 ^ 32));
}

#[test]
fn and_shares_sum_and_replay() {
    let (x1, x2, x3) = (0xdead_beef, 0x0bad_f00d, 0x1357_9bdf);
    let (y1, y2, y3) = (0x0246_8ace, 0xfeed_face, 0x7777_0000);
    let mut p1 = party(vec![], vec![R1]);
    let mut p2 = party(vec![], vec![R2]);
    let mut p3 = party(vec![], vec![R3]);
    let (o1, o2, o3) = mpc_and((x1, y1), (x2, y2), (x3, y3), &mut p1, &mut p2, &mut p3);
    assert_eq!(o1 ^ o2 ^ o3, (x1 ^ x2 ^ x3) & (y1 ^ y2 ^ y3));
    assert_eq!(p1.view.messages, vec![o1]);

    let mut q1 = party(vec![], vec![R1]);
    let mut q2 = replay_party(vec![], vec![R2], p2.view.messages.clone());
    let (v1, v2) = mpc_and_verify((x1, y1), (x2, y2), &mut q1, &mut q2).unwrap();
    assert_eq!((v1, v2), (o1, o2));
    assert_eq!(q1.view.messages, p1.view.messages);

    let mut q1 = party(vec![], vec![R1]);
    let mut q2 = party(vec![], vec![R2]);
    assert_eq!(
        mpc_and_verify((x1, y1), (x2, y2), &mut q1, &mut q2).unwrap_err(),
        Error::MpcMessageMismatch
    );
}

#[test]
fn add_mod_shares_sum_and_replay() {
    let (x1, x2, x3) = (0xdead_beef, 0x0bad_f00d, 0x1357_9bdf);
    let (y1, y2, y3) = (0x0246_8ace, 0xfeed_face, 0x7777_0000);
    let mut p1 = party(vec![], vec![R1]);
    let mut p2 = party(vec![], vec![R2]);
    let mut p3 = party(vec![], vec![R3]);
    let (o1, o2, o3) = mpc_add_mod((x1, y1), (x2, y2), (x3, y3), &mut p1, &mut p2, &mut p3);
    assert_eq!(o1 ^ o2 ^ o3, (x1 ^ x2 ^ x3).wrapping_add(y1 ^ y2 ^ y3));

    let mut q2 = party(vec![], vec![R2]);
    let mut q3 = replay_party(vec![], vec![R3], p3.view.messages.clone());
    let (v2, v3) = add_mod_verify((x2, y2), (x3, y3), &mut q2, &mut q3).unwrap();
    assert_eq!((v2, v3), (o2, o3));
    assert_eq!(q2.view.messages, p2.view.messages);
}

#[test]
fn add_mod_k_shares_sum_and_replay() {
    let k = 3490903;
    let (x1, x2) = (0x0102_0304, 0xa0b0_c0d0);
    let x3 = 4294 ^ x1 ^ x2;
    let mut p1 = party(vec![], vec![R1]);
    let mut p2 = party(vec![], vec![R2]);
    let mut p3 = party(vec![], vec![R3]);
    let (o1, o2, o3) = mpc_add_mod_k(x1, x2, x3, k, &mut p1, &mut p2, &mut p3);
    assert_eq!(o1 ^ o2 ^ o3, 3495197);

    let mut q3 = party(vec![], vec![R3]);
    let mut q1 = replay_party(vec![], vec![R1], p1.view.messages.clone());
    let (v3, v1) = add_mod_verify_k(x3, x1, k, &mut q3, &mut q1).unwrap();
    assert_eq!((v3, v1), (o3, o1));
}

#[test]
fn ch_maj_temp2_shares_sum_and_replay() {
    let e = (0x1111_2222, 0x3333_4444, 381321 ^ 0x1111_2222 ^ 0x3333_4444);
    let f = (0x5555_6666, 0x7777_8888, 32131 ^ 0x5555_6666 ^ 0x7777_8888);
    let g = (0x9999_aaaa, 0xbbbb_cccc, 328131 ^ 0x9999_aaaa ^ 0xbbbb_cccc);

    let mut p1 = party(vec![], vec![R1]);
    let mut p2 = party(vec![], vec![R2]);
    let mut p3 = party(vec![], vec![R3]);
    let (o1, o2, o3) = mpc_ch((e.0, f.0, g.0), (e.1, f.1, g.1), (e.2, f.2, g.2), &mut p1, &mut p2, &mut p3);
    assert_eq!(o1 ^ o2 ^ o3, 20931);
    let mut q1 = party(vec![], vec![R1]);
    let mut q2 = replay_party(vec![], vec![R2], p2.view.messages.clone());
    assert_eq!(ch_verify((e.0, f.0, g.0), (e.1, f.1, g.1), &mut q1, &mut q2).unwrap(), (o1, o2));

    let mut p1 = party(vec![], vec![R1]);
    let mut p2 = party(vec![], vec![R2]);
    let mut p3 = party(vec![], vec![R3]);
    let (o1, o2, o3) = mpc_maj((e.0, f.0, g.0), (e.1, f.1, g.1), (e.2, f.2, g.2), &mut p1, &mut p2, &mut p3);
    assert_eq!(o1 ^ o2 ^ o3, 348547);
    let mut q2 = party(vec![], vec![R2]);
    let mut q3 = replay_party(vec![], vec![R3], p3.view.messages.clone());
    assert_eq!(maj_verify((e.1, f.1, g.1), (e.2, f.2, g.2), &mut q2, &mut q3).unwrap(), (o2, o3));

    let mut p1 = party(vec![], vec![R1]);
    let mut p2 = party(vec![], vec![R2]);
    let mut p3 = party(vec![], vec![R3]);
    let (o1, o2, o3) = mpc_temp2((e.0, f.0), (e.1, f.1), (e.2, f.2), &mut p1, &mut p2, &mut p3);
    assert_eq!(o1 ^ o2 ^ o3, 413452);
    let mut q1 = party(vec![], vec![R1]);
    let mut q2 = replay_party(vec![], vec![R2], p2.view.messages.clone());
    assert_eq!(mpc_temp2_verify((e.0, f.0), (e.1, f.1), &mut q1, &mut q2).unwrap(), (o1, o2));
}

#[test]
fn digest_shares_sum_and_replay() {
    let c1 = [1u32, 2, 3, 4, 5, 6, 7, 8];
    let c2 = [0xffff_0000u32, 0x1234, 0, 0xdead, 0xbeef, 0x0101, 0x8000_0000, 0x7fff_ffff];
    let c3 = [9u32, 10, 11, 12, 13, 14, 15, 16];
    let tape = |r: u32| (0..8).map(|i| r.rotate_left(i)).collect::<Vec<u32>>();
    let mut p1 = party(vec![], tape(R1));
    let mut p2 = party(vec![], tape(R2));
    let mut p3 = party(vec![], tape(R3));
    let (o1, o2, o3) = mpc_digest(&c1, &c2, &c3, &mut p1, &mut p2, &mut p3);
    let xs: Vec<u32> = (0..8).map(|i| c1[i] ^ c2[i] ^ c3[i]).collect();
    let plain = digest(&xs.clone().try_into().unwrap());
    for i in 0..8 {
        assert_eq!(o1[i] ^ o2[i] ^ o3[i], plain[i]);
    }
    assert_eq!(p1.view.messages.len(), 8);

    let mut q1 = party(vec![], tape(R1));
    let mut q2 = replay_party(vec![], tape(R2), p2.view.messages.clone());
    let (v1, v2) = mpc_digest_verify(&c1, &c2, &mut q1, &mut q2).unwrap();
    assert_eq!((v1, v2), (o1, o2));
    assert_eq!(q1.view.messages, p1.view.messages);

    let mut q1 = party(vec![], tape(R1));
    let mut q2 = replay_party(vec![], tape(R2), vec![0; 7]);
    assert_eq!(mpc_digest_verify(&c1, &c2, &mut q1, &mut q2).unwrap_err(), Error::MpcMessageMismatch);
}

#[test]
fn simulate_needs_the_next_view() {
    let circuit = SimpleCircuit;
    let mut p = party(vec![1, 2, 3, 4, 5], vec![R1, R2]);
    let mut p_next = replay_party(vec![6, 7, 8, 9, 10], vec![R3, R1], vec![42]);
    assert_eq!(
        circuit.simulate_two_parties(&mut p, &mut p_next).unwrap_err(),
        Error::MpcMessageMismatch
    );
}

#[test]
fn view_and_party_bookkeeping() {
    let mut v = View::new(vec![7, 8]);
    assert!(v.messages.is_empty());
    v.send_msg(3);
    v.send_msg(4);
    assert_eq!(v.messages, vec![3, 4]);
    assert_eq!(v.read_next(), 3);
    assert_eq!(v.read_next(), 4);
    assert_eq!(v.input, vec![7, 8]);

    let mut p = Party::new(vec![1], [0u8; 32], 3);
    let a = p.read_tape();
    let b = p.read_tape();
    assert_ne!(a, b);
    p.view.send_msg(9);
    assert_eq!(p.read_view(), 9);
}

#[test]
fn tape_follows_the_chacha20_stream() {
    // ChaCha20 with an all-zero key and nonce (test vector 1 of the ChaCha20 draft).
    let mut tape = Tape::from_key(&[0u8; 32], 16);
    let expected = [
        0xade0b876, 0x903df1a0, 0xe56a5d40, 0x28bd8653, 0xb819d2bd, 0x1aed8da0, 0xccef36a8,
        0xc70d778b,
    ];
    assert_eq!(tape.read_words(8), expected.to_vec());
    assert_eq!(tape.words.len(), 16);
    assert_eq!(tape.read_next(), 0x7c5941da);
}

#[test]
fn independent_tapes_look_independent() {
    let keys = [[1u8; 32], [2u8; 32], [3u8; 32]];
    let n = 4096;
    let tapes: Vec<Vec<u32>> = keys.iter().map(|k| Tape::from_key(k, n).words).collect();
    for a in 0..3 {
        let ones: u32 = tapes[a].iter().map(|w| w.count_ones()).sum();
        let total = (n * 32) as f64;
        assert!(((ones as f64) / total - 0.5).abs() < 0.01);
        for b in (a + 1)..3 {
            let agree: u32 = tapes[a].iter().zip(tapes[b].iter()).map(|(x, y)| (!(x ^ y)).count_ones()).sum();
            assert!(((agree as f64) / total - 0.5).abs() < 0.01);
        }
    }
}

#[test]
fn commitment_is_keccak256_of_key_and_view() {
    // Keccak-256 of 32 zero bytes.
    let expected: Vec<u8> = vec![
        0x29, 0x0d, 0xec, 0xd9, 0x54, 0x8b, 0x62, 0xa8, 0xd6, 0x03, 0x45, 0xa9, 0x88, 0x38, 0x6f,
        0xc8, 0x4b, 0xa6, 0xbc, 0x95, 0x48, 0x40, 0x08, 0xf6, 0x36, 0x2f, 0x93, 0x16, 0x0e, 0xf3,
        0xe5, 0x63,
    ];
    assert_eq!(commit(&[0u8; 32], &vec![], &vec![]), expected);
    // Keccak-256 of 64 zero bytes: the key followed by eight zero words.
    let expected_64: Vec<u8> = vec![
        0xad, 0x32, 0x28, 0xb6, 0x76, 0xf7, 0xd3, 0xcd, 0x42, 0x84, 0xa5, 0x44, 0x3f, 0x17, 0xf1,
        0x96, 0x2b, 0x36, 0xe4, 0x91, 0xb3, 0x0a, 0x40, 0xb2, 0x40, 0x58, 0x49, 0xe5, 0x97, 0xba,
        0x5f, 0xb5,
    ];
    assert_eq!(commit(&[0u8; 32], &vec![0, 0], &vec![0, 0, 0, 0, 0, 0]), expected_64);
    assert_ne!(commit(&[0u8; 32], &vec![1], &vec![]), commit(&[0u8; 32], &vec![0], &vec![]));
}

#[test]
fn challenges_use_rejection_sampling() {
    assert_eq!(challenges_from_stream(&vec![0, 1, 2, 3, 255, 254, 5], 6), Some(vec![0, 1, 2, 0, 2, 2]));
    assert_eq!(challenges_from_stream(&vec![255, 255, 7], 1), Some(vec![1]));
    assert_eq!(challenges_from_stream(&vec![255, 255, 7], 2), None);
    assert_eq!(challenges_from_stream(&vec![], 0), Some(vec![]));

    let cs = derive_challenges(&vec![1, 2, 3], 137).unwrap();
    assert_eq!(cs.len(), 137);
    assert!(cs.iter().all(|&c| c < 3));
    assert!(cs.iter().any(|&c| c == 0) && cs.iter().any(|&c| c == 1) && cs.iter().any(|&c| c == 2));
    assert_ne!(cs, derive_challenges(&vec![1, 2, 4], 137).unwrap());
}

#[test]
fn words_from_bytes_are_little_endian() {
    assert_eq!(words_from_le_bytes(&vec![1, 0, 0, 0, 0xff, 0xee, 0xdd, 0xcc, 9]), vec![1, 0xccdd_eeff]);
}

#[test]
fn rotations_and_shifts_are_linear() {
    assert_eq!(rotate_right(1, 1), 0x8000_0000);
    assert_eq!(rotate_left(0x8000_0001, 4), 0x18);
    assert_eq!(rotate_right(0x1234_5678, 0), 0x1234_5678);
    let shares = (0xdead_beefu32, 0x0bad_f00du32, 0x1357_9bdfu32);
    let x = shares.0 ^ shares.1 ^ shares.2;
    let (a, b, c) = mpc_rotate_right(shares, 7);
    assert_eq!(a ^ b ^ c, x.rotate_right(7));
    let (a, b, c) = mpc_rotate_left(shares, 13);
    assert_eq!(a ^ b ^ c, x.rotate_left(13));
    let (a, b, c) = mpc_shift_right(shares, 10);
    assert_eq!(a ^ b ^ c, x >> 10);
}

#[test]
fn bit_and_shares_reconstruct_and_are_masked() {
    let bits = [false, true];
    for &a1 in &bits {
        for &b1 in &bits {
            for &a2 in &bits {
                for &b2 in &bits {
                    for &a3 in &bits {
                        for &b3 in &bits {
                            for &r1 in &bits {
                                for &r2 in &bits {
                                    for &r3 in &bits {
                                        let s1 = bit_and((a1, b1), (a2, b2), r1, r2);
                                        let s2 = bit_and((a2, b2), (a3, b3), r2, r3);
                                        let s3 = bit_and((a3, b3), (a1, b1), r3, r1);
                                        assert_eq!(s1 ^ s2 ^ s3, (a1 ^ a2 ^ a3) & (b1 ^ b2 ^ b3));
                                        assert_ne!(s1, bit_and((a1, b1), (a2, b2), r1, !r2));
                                    }
                                }
                            }
                        }
                    }
                }
            }
        }
    }
}
