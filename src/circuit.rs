use vstd::prelude::*;
use vstd::view::View as _;

use crate::add_mod::{add_mod_verify_k, adder, final_carries, final_carry, mpc_add_mod_k};
use crate::error::Error;
use crate::gadgets::{
    and_layer, and_share, has_tape, mpc_and, mpc_and_verify, new_messages, replayed_many, sent_many,
    unread_messages, unread_tape, xor_words,
};
use crate::party::Party;
use crate::sha256::{
    ch, ch_spec, ch_verify, digest, digest_spec, iv, maj, maj_spec, maj_verify, mpc_ch, mpc_digest,
    mpc_digest_verify, digest_entry, digest_joint_entry, mpc_maj, mpc_temp2, mpc_temp2_verify, temp2,
};
use crate::word::add_word;

verus! {

/// A boolean circuit over 32-bit words, with its plaintext evaluation, its (2,3)-decomposition
/// on three parties and the replay of that decomposition on two parties.
///
/// Each party's broadcast messages are a function of its own input share and tape, the next
/// party's input share and tape, and the next party's messages (`messages_spec`); each party's
/// output share is a function of its own view (`output_spec`). These two functions are what lets
/// a verifier that holds two tapes and the next party's view recompute a party's view exactly.
pub trait Circuit {
    /// Number of input words.
    spec fn input_len_spec(&self) -> nat;

    /// Number of output words.
    spec fn output_len_spec(&self) -> nat;

    /// Number of multiplicative gates: each reads one tape word and broadcasts one message per
    /// party.
    spec fn mul_gates_spec(&self) -> nat;

    /// The plaintext function that the circuit computes.
    spec fn compute_spec(&self, input: Seq<u32>) -> Seq<u32>;

    /// The messages that a party broadcasts during the decomposition.
    spec fn messages_spec(
        &self,
        input: Seq<u32>,
        input_next: Seq<u32>,
        tape: Seq<u32>,
        tape_next: Seq<u32>,
        msgs_next: Seq<u32>,
    ) -> Seq<u32>;

    /// A party's output share, from its view.
    spec fn output_spec(&self, input: Seq<u32>, msgs: Seq<u32>) -> Seq<u32>;

    /// The messages of all three parties, from their input shares and tapes.
    spec fn decomposition_spec(
        &self,
        in1: Seq<u32>,
        in2: Seq<u32>,
        in3: Seq<u32>,
        t1: Seq<u32>,
        t2: Seq<u32>,
        t3: Seq<u32>,
    ) -> Seq<Seq<u32>>;

    fn compute(&self, input: &Vec<u32>) -> (r: Vec<u32>)
        requires
            input@.len() == self.input_len_spec(),
        ensures
            r@ == self.compute_spec(input@),
            r@.len() == self.output_len_spec(),
    ;

    /// Decomposes the circuit into three branches, one per party, such that the values computed
    /// in any two branches reveal nothing about the input.
    fn compute_23_decomposition(&self, p1: &mut Party, p2: &mut Party, p3: &mut Party) -> (r: (
        Vec<u32>,
        Vec<u32>,
        Vec<u32>,
    ))
        requires
            old(p1).view.input@.len() == self.input_len_spec(),
            old(p2).view.input@.len() == self.input_len_spec(),
            old(p3).view.input@.len() == self.input_len_spec(),
            has_tape(*old(p1), self.mul_gates_spec() as int),
            has_tape(*old(p2), self.mul_gates_spec() as int),
            has_tape(*old(p3), self.mul_gates_spec() as int),
        ensures
            ({
                let g = self.mul_gates_spec() as int;
                let (in1, in2, in3) = (old(p1).view.input@, old(p2).view.input@, old(p3).view.input@);
                let (t1, t2, t3) = (unread_tape(*old(p1), g), unread_tape(*old(p2), g), unread_tape(*old(p3), g));
                let m1 = new_messages(*old(p1), *final(p1));
                let m2 = new_messages(*old(p2), *final(p2));
                let m3 = new_messages(*old(p3), *final(p3));
                &&& xor_words(r.0@, r.1@, r.2@) == self.compute_spec(xor_words(in1, in2, in3))
                &&& r.0@.len() == self.output_len_spec()
                &&& r.1@.len() == self.output_len_spec()
                &&& r.2@.len() == self.output_len_spec()
                &&& sent_many(*old(p1), *final(p1), m1) && m1.len() == g
                &&& sent_many(*old(p2), *final(p2), m2) && m2.len() == g
                &&& sent_many(*old(p3), *final(p3), m3) && m3.len() == g
                &&& m1 == self.messages_spec(in1, in2, t1, t2, m2)
                &&& m2 == self.messages_spec(in2, in3, t2, t3, m3)
                &&& m3 == self.messages_spec(in3, in1, t3, t1, m1)
                &&& seq![m1, m2, m3] == self.decomposition_spec(in1, in2, in3, t1, t2, t3)
                &&& r.0@ == self.output_spec(in1, m1)
                &&& r.1@ == self.output_spec(in2, m2)
                &&& r.2@ == self.output_spec(in3, m3)
            }),
    ;

    /// Replays the decomposition on party `p`, whose tape is known, and party `p_next`, whose
    /// tape is known and whose messages are read from its view. Fails when `p_next`'s view holds
    /// too few messages.
    fn simulate_two_parties(&self, p: &mut Party, p_next: &mut Party) -> (r: Result<
        (Vec<u32>, Vec<u32>),
        Error,
    >)
        requires
            old(p).view.input@.len() == self.input_len_spec(),
            old(p_next).view.input@.len() == self.input_len_spec(),
            has_tape(*old(p), self.mul_gates_spec() as int),
            has_tape(*old(p_next), self.mul_gates_spec() as int),
        ensures
            r is Ok <==> old(p_next).view.read_pos + self.mul_gates_spec() <= old(p_next).view.messages@.len(),
            r is Err ==> r->Err_0 == Error::MpcMessageMismatch,
            r is Ok ==> {
                let g = self.mul_gates_spec() as int;
                let (in_p, in_n) = (old(p).view.input@, old(p_next).view.input@);
                let m = new_messages(*old(p), *final(p));
                let m_next = unread_messages(*old(p_next), g);
                &&& sent_many(*old(p), *final(p), m)
                &&& replayed_many(*old(p_next), *final(p_next), g)
                &&& m == self.messages_spec(in_p, in_n, unread_tape(*old(p), g), unread_tape(*old(p_next), g), m_next)
                &&& r->Ok_0.0@ == self.output_spec(in_p, m)
                &&& r->Ok_0.0@.len() == self.output_len_spec()
                &&& r->Ok_0.1@.len() == self.output_len_spec()
                &&& r->Ok_0.1@ == self.output_spec(in_n, m_next)
            },
    ;

    fn party_input_len(&self) -> (r: usize)
        ensures
            r == self.input_len_spec(),
    ;

    fn party_output_len(&self) -> (r: usize)
        ensures
            r == self.output_len_spec(),
    ;

    fn num_of_mul_gates(&self) -> (r: usize)
        ensures
            r == self.mul_gates_spec(),
    ;
}

/// The circuit `(x1 ^ x2) & (x3 ^ x4) & x5` on five words.
pub struct SimpleCircuit;

impl Circuit for SimpleCircuit {
    open spec fn input_len_spec(&self) -> nat {
        5
    }

    open spec fn output_len_spec(&self) -> nat {
        1
    }

    open spec fn mul_gates_spec(&self) -> nat {
        2
    }

    open spec fn compute_spec(&self, input: Seq<u32>) -> Seq<u32> {
        seq![(input[0] ^ input[1]) & (input[2] ^ input[3]) & input[4]]
    }

    open spec fn messages_spec(
        &self,
        input: Seq<u32>,
        input_next: Seq<u32>,
        tape: Seq<u32>,
        tape_next: Seq<u32>,
        msgs_next: Seq<u32>,
    ) -> Seq<u32> {
        let ab = and_share(
            input[0] ^ input[1],
            input[2] ^ input[3],
            input_next[0] ^ input_next[1],
            input_next[2] ^ input_next[3],
            tape[0],
            tape_next[0],
        );
        seq![ab, and_share(ab, input[4], msgs_next[0], input_next[4], tape[1], tape_next[1])]
    }

    open spec fn output_spec(&self, input: Seq<u32>, msgs: Seq<u32>) -> Seq<u32> {
        seq![msgs[1]]
    }

    open spec fn decomposition_spec(
        &self,
        in1: Seq<u32>,
        in2: Seq<u32>,
        in3: Seq<u32>,
        t1: Seq<u32>,
        t2: Seq<u32>,
        t3: Seq<u32>,
    ) -> Seq<Seq<u32>> {
        let (ab1, ab2, ab3) = and_layer(
            in1[0] ^ in1[1],
            in1[2] ^ in1[3],
            t1[0],
            in2[0] ^ in2[1],
            in2[2] ^ in2[3],
            t2[0],
            in3[0] ^ in3[1],
            in3[2] ^ in3[3],
            t3[0],
        );
        let (o1, o2, o3) = and_layer(ab1, in1[4], t1[1], ab2, in2[4], t2[1], ab3, in3[4], t3[1]);
        seq![seq![ab1, o1], seq![ab2, o2], seq![ab3, o3]]
    }

    fn compute(&self, input: &Vec<u32>) -> (r: Vec<u32>) {
        vec![(input[0] ^ input[1]) & (input[2] ^ input[3]) & input[4]]
    }

    fn compute_23_decomposition(&self, p1: &mut Party, p2: &mut Party, p3: &mut Party) -> (r: (
        Vec<u32>,
        Vec<u32>,
        Vec<u32>,
    )) {
        let (x1, x2, x3, x4, x5) = (
            p1.view.input[0],
            p1.view.input[1],
            p1.view.input[2],
            p1.view.input[3],
            p1.view.input[4],
        );
        let (y1, y2, y3, y4, y5) = (
            p2.view.input[0],
            p2.view.input[1],
            p2.view.input[2],
            p2.view.input[3],
            p2.view.input[4],
        );
        let (z1, z2, z3, z4, z5) = (
            p3.view.input[0],
            p3.view.input[1],
            p3.view.input[2],
            p3.view.input[3],
            p3.view.input[4],
        );
        let ghost (b1, b2, b3) = (*p1, *p2, *p3);
        let (ab1, ab2, ab3) = mpc_and(
            (x1 ^ x2, x3 ^ x4),
            (y1 ^ y2, y3 ^ y4),
            (z1 ^ z2, z3 ^ z4),
            p1,
            p2,
            p3,
        );
        let (o1, o2, o3) = mpc_and((ab1, x5), (ab2, y5), (ab3, z5), p1, p2, p3);
        proof {
            let xs = xor_words(b1.view.input@, b2.view.input@, b3.view.input@);
            assert((x1 ^ x2) ^ (y1 ^ y2) ^ (z1 ^ z2) == (x1 ^ y1 ^ z1) ^ (x2 ^ y2 ^ z2)) by (bit_vector);
            assert((x3 ^ x4) ^ (y3 ^ y4) ^ (z3 ^ z4) == (x3 ^ y3 ^ z3) ^ (x4 ^ y4 ^ z4)) by (bit_vector);
            assert(new_messages(b1, *p1) =~= seq![ab1, o1]);
            assert(new_messages(b2, *p2) =~= seq![ab2, o2]);
            assert(new_messages(b3, *p3) =~= seq![ab3, o3]);
            assert(p1.view.messages@ =~= b1.view.messages@ + seq![ab1, o1]);
            assert(p2.view.messages@ =~= b2.view.messages@ + seq![ab2, o2]);
            assert(p3.view.messages@ =~= b3.view.messages@ + seq![ab3, o3]);
            assert(xor_words(seq![o1], seq![o2], seq![o3]) =~= self.compute_spec(xs));
            assert(self.messages_spec(b1.view.input@, b2.view.input@, unread_tape(b1, 2), unread_tape(b2, 2), seq![ab2, o2]) =~= seq![ab1, o1]);
            assert(self.messages_spec(b2.view.input@, b3.view.input@, unread_tape(b2, 2), unread_tape(b3, 2), seq![ab3, o3]) =~= seq![ab2, o2]);
            assert(self.messages_spec(b3.view.input@, b1.view.input@, unread_tape(b3, 2), unread_tape(b1, 2), seq![ab1, o1]) =~= seq![ab3, o3]);
            assert(seq![seq![ab1, o1], seq![ab2, o2], seq![ab3, o3]] =~= self.decomposition_spec(
                b1.view.input@,
                b2.view.input@,
                b3.view.input@,
                unread_tape(b1, 2),
                unread_tape(b2, 2),
                unread_tape(b3, 2),
            ));
        }
        (vec![o1], vec![o2], vec![o3])
    }

    fn simulate_two_parties(&self, p: &mut Party, p_next: &mut Party) -> (r: Result<
        (Vec<u32>, Vec<u32>),
        Error,
    >) {
        if p_next.view.read_pos > p_next.view.messages.len() || p_next.view.messages.len() - p_next.view.read_pos < 2 {
            return Err(Error::MpcMessageMismatch);
        }
        let ghost (bp, bn) = (*p, *p_next);
        let (x1, x2, x3, x4, x5) = (
            p.view.input[0],
            p.view.input[1],
            p.view.input[2],
            p.view.input[3],
            p.view.input[4],
        );
        let (y1, y2, y3, y4, y5) = (
            p_next.view.input[0],
            p_next.view.input[1],
            p_next.view.input[2],
            p_next.view.input[3],
            p_next.view.input[4],
        );
        let (ab1, ab2) = mpc_and_verify((x1 ^ x2, x3 ^ x4), (y1 ^ y2, y3 ^ y4), p, p_next)?;
        let (o1, o2) = mpc_and_verify((ab1, x5), (ab2, y5), p, p_next)?;
        proof {
            assert(p.view.messages@ =~= bp.view.messages@ + seq![ab1, o1]);
            assert(new_messages(bp, *p) =~= seq![ab1, o1]);
            assert(unread_messages(bn, 2) =~= seq![ab2, o2]);
            assert(self.messages_spec(bp.view.input@, bn.view.input@, unread_tape(bp, 2), unread_tape(bn, 2), seq![ab2, o2]) =~= seq![ab1, o1]);
        }
        Ok((vec![o1], vec![o2]))
    }

    fn party_input_len(&self) -> (r: usize) {
        5
    }

    fn party_output_len(&self) -> (r: usize) {
        1
    }

    fn num_of_mul_gates(&self) -> (r: usize) {
        2
    }
}

/// Addition of a public constant modulo 2^32: `x + k`.
pub struct AddModKCircuit {
    pub k: u32,
}

impl Circuit for AddModKCircuit {
    open spec fn input_len_spec(&self) -> nat {
        1
    }

    open spec fn output_len_spec(&self) -> nat {
        1
    }

    open spec fn mul_gates_spec(&self) -> nat {
        1
    }

    open spec fn compute_spec(&self, input: Seq<u32>) -> Seq<u32> {
        seq![add_word(input[0], self.k)]
    }

    open spec fn messages_spec(
        &self,
        input: Seq<u32>,
        input_next: Seq<u32>,
        tape: Seq<u32>,
        tape_next: Seq<u32>,
        msgs_next: Seq<u32>,
    ) -> Seq<u32> {
        seq![final_carry(input[0], self.k, input_next[0], self.k, msgs_next[0], tape[0], tape_next[0])]
    }

    open spec fn output_spec(&self, input: Seq<u32>, msgs: Seq<u32>) -> Seq<u32> {
        seq![input[0] ^ self.k ^ msgs[0]]
    }

    open spec fn decomposition_spec(
        &self,
        in1: Seq<u32>,
        in2: Seq<u32>,
        in3: Seq<u32>,
        t1: Seq<u32>,
        t2: Seq<u32>,
        t3: Seq<u32>,
    ) -> Seq<Seq<u32>> {
        let (c1, c2, c3) = final_carries(in1[0], self.k, t1[0], in2[0], self.k, t2[0], in3[0], self.k, t3[0]);
        seq![seq![c1], seq![c2], seq![c3]]
    }

    fn compute(&self, input: &Vec<u32>) -> (r: Vec<u32>) {
        vec![adder(input[0], self.k)]
    }

    fn compute_23_decomposition(&self, p1: &mut Party, p2: &mut Party, p3: &mut Party) -> (r: (
        Vec<u32>,
        Vec<u32>,
        Vec<u32>,
    )) {
        let ghost (b1, b2, b3) = (*p1, *p2, *p3);
        let (o1, o2, o3) = mpc_add_mod_k(
            p1.view.input[0],
            p2.view.input[0],
            p3.view.input[0],
            self.k,
            p1,
            p2,
            p3,
        );
        proof {
            assert(p1.view.messages@ =~= b1.view.messages@ + seq![p1.view.messages@.last()]);
            assert(p2.view.messages@ =~= b2.view.messages@ + seq![p2.view.messages@.last()]);
            assert(p3.view.messages@ =~= b3.view.messages@ + seq![p3.view.messages@.last()]);
            assert(new_messages(b1, *p1) =~= seq![p1.view.messages@.last()]);
            assert(new_messages(b2, *p2) =~= seq![p2.view.messages@.last()]);
            assert(new_messages(b3, *p3) =~= seq![p3.view.messages@.last()]);
            assert(xor_words(seq![o1], seq![o2], seq![o3]) =~= self.compute_spec(xor_words(b1.view.input@, b2.view.input@, b3.view.input@)));
            assert(self.messages_spec(b1.view.input@, b2.view.input@, unread_tape(b1, 1), unread_tape(b2, 1), new_messages(b2, *p2)) =~= new_messages(b1, *p1));
            assert(self.messages_spec(b2.view.input@, b3.view.input@, unread_tape(b2, 1), unread_tape(b3, 1), new_messages(b3, *p3)) =~= new_messages(b2, *p2));
            assert(self.messages_spec(b3.view.input@, b1.view.input@, unread_tape(b3, 1), unread_tape(b1, 1), new_messages(b1, *p1)) =~= new_messages(b3, *p3));
            assert(self.output_spec(b1.view.input@, new_messages(b1, *p1)) =~= seq![o1]);
            assert(seq![new_messages(b1, *p1), new_messages(b2, *p2), new_messages(b3, *p3)] =~= self.decomposition_spec(
                b1.view.input@,
                b2.view.input@,
                b3.view.input@,
                unread_tape(b1, 1),
                unread_tape(b2, 1),
                unread_tape(b3, 1),
            ));
            assert(self.output_spec(b2.view.input@, new_messages(b2, *p2)) =~= seq![o2]);
            assert(self.output_spec(b3.view.input@, new_messages(b3, *p3)) =~= seq![o3]);
        }
        (vec![o1], vec![o2], vec![o3])
    }

    fn simulate_two_parties(&self, p: &mut Party, p_next: &mut Party) -> (r: Result<
        (Vec<u32>, Vec<u32>),
        Error,
    >) {
        if p_next.view.read_pos >= p_next.view.messages.len() {
            return Err(Error::MpcMessageMismatch);
        }
        let ghost (bp, bn) = (*p, *p_next);
        let (o1, o2) = add_mod_verify_k(p.view.input[0], p_next.view.input[0], self.k, p, p_next)?;
        proof {
            assert(p.view.messages@ =~= bp.view.messages@ + seq![p.view.messages@.last()]);
            assert(new_messages(bp, *p) =~= seq![p.view.messages@.last()]);
            assert(unread_messages(bn, 1) =~= seq![bn.view.messages@[bn.view.read_pos as int]]);
            assert(self.messages_spec(bp.view.input@, bn.view.input@, unread_tape(bp, 1), unread_tape(bn, 1), unread_messages(bn, 1)) =~= new_messages(bp, *p));
            assert(self.output_spec(bp.view.input@, new_messages(bp, *p)) =~= seq![o1]);
            assert(self.output_spec(bn.view.input@, unread_messages(bn, 1)) =~= seq![o2]);
        }
        Ok((vec![o1], vec![o2]))
    }

    fn party_input_len(&self) -> (r: usize) {
        1
    }

    fn party_output_len(&self) -> (r: usize) {
        1
    }

    fn num_of_mul_gates(&self) -> (r: usize) {
        1
    }
}

/// The SHA-256 choice function `Ch(e, f, g)` on three words.
pub struct ChCircuit;

impl Circuit for ChCircuit {
    open spec fn input_len_spec(&self) -> nat {
        3
    }

    open spec fn output_len_spec(&self) -> nat {
        1
    }

    open spec fn mul_gates_spec(&self) -> nat {
        1
    }

    open spec fn compute_spec(&self, input: Seq<u32>) -> Seq<u32> {
        seq![ch_spec(input[0], input[1], input[2])]
    }

    open spec fn messages_spec(
        &self,
        input: Seq<u32>,
        input_next: Seq<u32>,
        tape: Seq<u32>,
        tape_next: Seq<u32>,
        msgs_next: Seq<u32>,
    ) -> Seq<u32> {
        seq![and_share(input[0], input[1] ^ input[2], input_next[0], input_next[1] ^ input_next[2], tape[0], tape_next[0])]
    }

    open spec fn output_spec(&self, input: Seq<u32>, msgs: Seq<u32>) -> Seq<u32> {
        seq![msgs[0] ^ input[2]]
    }

    open spec fn decomposition_spec(
        &self,
        in1: Seq<u32>,
        in2: Seq<u32>,
        in3: Seq<u32>,
        t1: Seq<u32>,
        t2: Seq<u32>,
        t3: Seq<u32>,
    ) -> Seq<Seq<u32>> {
        let (m1, m2, m3) = and_layer(
            in1[0],
            in1[1] ^ in1[2],
            t1[0],
            in2[0],
            in2[1] ^ in2[2],
            t2[0],
            in3[0],
            in3[1] ^ in3[2],
            t3[0],
        );
        seq![seq![m1], seq![m2], seq![m3]]
    }

    fn compute(&self, input: &Vec<u32>) -> (r: Vec<u32>) {
        vec![ch(input[0], input[1], input[2])]
    }

    fn compute_23_decomposition(&self, p1: &mut Party, p2: &mut Party, p3: &mut Party) -> (r: (
        Vec<u32>,
        Vec<u32>,
        Vec<u32>,
    )) {
        let ghost (b1, b2, b3) = (*p1, *p2, *p3);
        let input_p1 = (p1.view.input[0], p1.view.input[1], p1.view.input[2]);
        let input_p2 = (p2.view.input[0], p2.view.input[1], p2.view.input[2]);
        let input_p3 = (p3.view.input[0], p3.view.input[1], p3.view.input[2]);
        let (o1, o2, o3) = mpc_ch(input_p1, input_p2, input_p3, p1, p2, p3);
        proof {
            assert(p1.view.messages@ =~= b1.view.messages@ + seq![p1.view.messages@.last()]);
            assert(p2.view.messages@ =~= b2.view.messages@ + seq![p2.view.messages@.last()]);
            assert(p3.view.messages@ =~= b3.view.messages@ + seq![p3.view.messages@.last()]);
            assert(new_messages(b1, *p1) =~= seq![p1.view.messages@.last()]);
            assert(new_messages(b2, *p2) =~= seq![p2.view.messages@.last()]);
            assert(new_messages(b3, *p3) =~= seq![p3.view.messages@.last()]);
            assert(xor_words(seq![o1], seq![o2], seq![o3]) =~= self.compute_spec(xor_words(b1.view.input@, b2.view.input@, b3.view.input@)));
            assert(self.messages_spec(b1.view.input@, b2.view.input@, unread_tape(b1, 1), unread_tape(b2, 1), new_messages(b2, *p2)) =~= new_messages(b1, *p1));
            assert(self.messages_spec(b2.view.input@, b3.view.input@, unread_tape(b2, 1), unread_tape(b3, 1), new_messages(b3, *p3)) =~= new_messages(b2, *p2));
            assert(self.messages_spec(b3.view.input@, b1.view.input@, unread_tape(b3, 1), unread_tape(b1, 1), new_messages(b1, *p1)) =~= new_messages(b3, *p3));
            assert(self.output_spec(b1.view.input@, new_messages(b1, *p1)) =~= seq![o1]);
            assert(seq![new_messages(b1, *p1), new_messages(b2, *p2), new_messages(b3, *p3)] =~= self.decomposition_spec(
                b1.view.input@,
                b2.view.input@,
                b3.view.input@,
                unread_tape(b1, 1),
                unread_tape(b2, 1),
                unread_tape(b3, 1),
            ));
            assert(self.output_spec(b2.view.input@, new_messages(b2, *p2)) =~= seq![o2]);
            assert(self.output_spec(b3.view.input@, new_messages(b3, *p3)) =~= seq![o3]);
        }
        (vec![o1], vec![o2], vec![o3])
    }

    fn simulate_two_parties(&self, p: &mut Party, p_next: &mut Party) -> (r: Result<
        (Vec<u32>, Vec<u32>),
        Error,
    >) {
        if p_next.view.read_pos >= p_next.view.messages.len() {
            return Err(Error::MpcMessageMismatch);
        }
        let ghost (bp, bn) = (*p, *p_next);
        let input_p = (p.view.input[0], p.view.input[1], p.view.input[2]);
        let input_p_next = (p_next.view.input[0], p_next.view.input[1], p_next.view.input[2]);
        let (o1, o2) = ch_verify(input_p, input_p_next, p, p_next)?;
        proof {
            assert(p.view.messages@ =~= bp.view.messages@ + seq![p.view.messages@.last()]);
            assert(new_messages(bp, *p) =~= seq![p.view.messages@.last()]);
            assert(unread_messages(bn, 1) =~= seq![bn.view.messages@[bn.view.read_pos as int]]);
            assert(self.messages_spec(bp.view.input@, bn.view.input@, unread_tape(bp, 1), unread_tape(bn, 1), unread_messages(bn, 1)) =~= new_messages(bp, *p));
            assert(self.output_spec(bp.view.input@, new_messages(bp, *p)) =~= seq![o1]);
            assert(self.output_spec(bn.view.input@, unread_messages(bn, 1)) =~= seq![o2]);
        }
        Ok((vec![o1], vec![o2]))
    }

    fn party_input_len(&self) -> (r: usize) {
        3
    }

    fn party_output_len(&self) -> (r: usize) {
        1
    }

    fn num_of_mul_gates(&self) -> (r: usize) {
        1
    }
}

/// The SHA-256 majority function `Maj(a, b, c)` on three words.
pub struct MajCircuit;

impl Circuit for MajCircuit {
    open spec fn input_len_spec(&self) -> nat {
        3
    }

    open spec fn output_len_spec(&self) -> nat {
        1
    }

    open spec fn mul_gates_spec(&self) -> nat {
        1
    }

    open spec fn compute_spec(&self, input: Seq<u32>) -> Seq<u32> {
        seq![maj_spec(input[0], input[1], input[2])]
    }

    open spec fn messages_spec(
        &self,
        input: Seq<u32>,
        input_next: Seq<u32>,
        tape: Seq<u32>,
        tape_next: Seq<u32>,
        msgs_next: Seq<u32>,
    ) -> Seq<u32> {
        seq![and_share(input[0] ^ input[1], input[0] ^ input[2], input_next[0] ^ input_next[1], input_next[0] ^ input_next[2], tape[0], tape_next[0])]
    }

    open spec fn output_spec(&self, input: Seq<u32>, msgs: Seq<u32>) -> Seq<u32> {
        seq![msgs[0] ^ input[0]]
    }

    open spec fn decomposition_spec(
        &self,
        in1: Seq<u32>,
        in2: Seq<u32>,
        in3: Seq<u32>,
        t1: Seq<u32>,
        t2: Seq<u32>,
        t3: Seq<u32>,
    ) -> Seq<Seq<u32>> {
        let (m1, m2, m3) = and_layer(
            in1[0] ^ in1[1],
            in1[0] ^ in1[2],
            t1[0],
            in2[0] ^ in2[1],
            in2[0] ^ in2[2],
            t2[0],
            in3[0] ^ in3[1],
            in3[0] ^ in3[2],
            t3[0],
        );
        seq![seq![m1], seq![m2], seq![m3]]
    }

    fn compute(&self, input: &Vec<u32>) -> (r: Vec<u32>) {
        vec![maj(input[0], input[1], input[2])]
    }

    fn compute_23_decomposition(&self, p1: &mut Party, p2: &mut Party, p3: &mut Party) -> (r: (
        Vec<u32>,
        Vec<u32>,
        Vec<u32>,
    )) {
        let ghost (b1, b2, b3) = (*p1, *p2, *p3);
        let input_p1 = (p1.view.input[0], p1.view.input[1], p1.view.input[2]);
        let input_p2 = (p2.view.input[0], p2.view.input[1], p2.view.input[2]);
        let input_p3 = (p3.view.input[0], p3.view.input[1], p3.view.input[2]);
        let (o1, o2, o3) = mpc_maj(input_p1, input_p2, input_p3, p1, p2, p3);
        proof {
            assert(p1.view.messages@ =~= b1.view.messages@ + seq![p1.view.messages@.last()]);
            assert(p2.view.messages@ =~= b2.view.messages@ + seq![p2.view.messages@.last()]);
            assert(p3.view.messages@ =~= b3.view.messages@ + seq![p3.view.messages@.last()]);
            assert(new_messages(b1, *p1) =~= seq![p1.view.messages@.last()]);
            assert(new_messages(b2, *p2) =~= seq![p2.view.messages@.last()]);
            assert(new_messages(b3, *p3) =~= seq![p3.view.messages@.last()]);
            assert(xor_words(seq![o1], seq![o2], seq![o3]) =~= self.compute_spec(xor_words(b1.view.input@, b2.view.input@, b3.view.input@)));
            assert(self.messages_spec(b1.view.input@, b2.view.input@, unread_tape(b1, 1), unread_tape(b2, 1), new_messages(b2, *p2)) =~= new_messages(b1, *p1));
            assert(self.messages_spec(b2.view.input@, b3.view.input@, unread_tape(b2, 1), unread_tape(b3, 1), new_messages(b3, *p3)) =~= new_messages(b2, *p2));
            assert(self.messages_spec(b3.view.input@, b1.view.input@, unread_tape(b3, 1), unread_tape(b1, 1), new_messages(b1, *p1)) =~= new_messages(b3, *p3));
            assert(self.output_spec(b1.view.input@, new_messages(b1, *p1)) =~= seq![o1]);
            assert(seq![new_messages(b1, *p1), new_messages(b2, *p2), new_messages(b3, *p3)] =~= self.decomposition_spec(
                b1.view.input@,
                b2.view.input@,
                b3.view.input@,
                unread_tape(b1, 1),
                unread_tape(b2, 1),
                unread_tape(b3, 1),
            ));
            assert(self.output_spec(b2.view.input@, new_messages(b2, *p2)) =~= seq![o2]);
            assert(self.output_spec(b3.view.input@, new_messages(b3, *p3)) =~= seq![o3]);
        }
        (vec![o1], vec![o2], vec![o3])
    }

    fn simulate_two_parties(&self, p: &mut Party, p_next: &mut Party) -> (r: Result<
        (Vec<u32>, Vec<u32>),
        Error,
    >) {
        if p_next.view.read_pos >= p_next.view.messages.len() {
            return Err(Error::MpcMessageMismatch);
        }
        let ghost (bp, bn) = (*p, *p_next);
        let input_p = (p.view.input[0], p.view.input[1], p.view.input[2]);
        let input_p_next = (p_next.view.input[0], p_next.view.input[1], p_next.view.input[2]);
        let (o1, o2) = maj_verify(input_p, input_p_next, p, p_next)?;
        proof {
            assert(p.view.messages@ =~= bp.view.messages@ + seq![p.view.messages@.last()]);
            assert(new_messages(bp, *p) =~= seq![p.view.messages@.last()]);
            assert(unread_messages(bn, 1) =~= seq![bn.view.messages@[bn.view.read_pos as int]]);
            assert(self.messages_spec(bp.view.input@, bn.view.input@, unread_tape(bp, 1), unread_tape(bn, 1), unread_messages(bn, 1)) =~= new_messages(bp, *p));
            assert(self.output_spec(bp.view.input@, new_messages(bp, *p)) =~= seq![o1]);
            assert(self.output_spec(bn.view.input@, unread_messages(bn, 1)) =~= seq![o2]);
        }
        Ok((vec![o1], vec![o2]))
    }

    fn party_input_len(&self) -> (r: usize) {
        3
    }

    fn party_output_len(&self) -> (r: usize) {
        1
    }

    fn num_of_mul_gates(&self) -> (r: usize) {
        1
    }
}

/// The SHA-256 `temp2 := S0 + maj` addition on two words.
pub struct Temp2Circuit;

impl Circuit for Temp2Circuit {
    open spec fn input_len_spec(&self) -> nat {
        2
    }

    open spec fn output_len_spec(&self) -> nat {
        1
    }

    open spec fn mul_gates_spec(&self) -> nat {
        1
    }

    open spec fn compute_spec(&self, input: Seq<u32>) -> Seq<u32> {
        seq![add_word(input[0], input[1])]
    }

    open spec fn messages_spec(
        &self,
        input: Seq<u32>,
        input_next: Seq<u32>,
        tape: Seq<u32>,
        tape_next: Seq<u32>,
        msgs_next: Seq<u32>,
    ) -> Seq<u32> {
        seq![final_carry(input[0], input[1], input_next[0], input_next[1], msgs_next[0], tape[0], tape_next[0])]
    }

    open spec fn output_spec(&self, input: Seq<u32>, msgs: Seq<u32>) -> Seq<u32> {
        seq![input[0] ^ input[1] ^ msgs[0]]
    }

    open spec fn decomposition_spec(
        &self,
        in1: Seq<u32>,
        in2: Seq<u32>,
        in3: Seq<u32>,
        t1: Seq<u32>,
        t2: Seq<u32>,
        t3: Seq<u32>,
    ) -> Seq<Seq<u32>> {
        let (c1, c2, c3) = final_carries(in1[0], in1[1], t1[0], in2[0], in2[1], t2[0], in3[0], in3[1], t3[0]);
        seq![seq![c1], seq![c2], seq![c3]]
    }

    fn compute(&self, input: &Vec<u32>) -> (r: Vec<u32>) {
        vec![temp2(input[0], input[1])]
    }

    fn compute_23_decomposition(&self, p1: &mut Party, p2: &mut Party, p3: &mut Party) -> (r: (
        Vec<u32>,
        Vec<u32>,
        Vec<u32>,
    )) {
        let ghost (b1, b2, b3) = (*p1, *p2, *p3);
        let input_p1 = (p1.view.input[0], p1.view.input[1]);
        let input_p2 = (p2.view.input[0], p2.view.input[1]);
        let input_p3 = (p3.view.input[0], p3.view.input[1]);
        let (o1, o2, o3) = mpc_temp2(input_p1, input_p2, input_p3, p1, p2, p3);
        proof {
            assert(p1.view.messages@ =~= b1.view.messages@ + seq![p1.view.messages@.last()]);
            assert(p2.view.messages@ =~= b2.view.messages@ + seq![p2.view.messages@.last()]);
            assert(p3.view.messages@ =~= b3.view.messages@ + seq![p3.view.messages@.last()]);
            assert(new_messages(b1, *p1) =~= seq![p1.view.messages@.last()]);
            assert(new_messages(b2, *p2) =~= seq![p2.view.messages@.last()]);
            assert(new_messages(b3, *p3) =~= seq![p3.view.messages@.last()]);
            assert(xor_words(seq![o1], seq![o2], seq![o3]) =~= self.compute_spec(xor_words(b1.view.input@, b2.view.input@, b3.view.input@)));
            assert(self.messages_spec(b1.view.input@, b2.view.input@, unread_tape(b1, 1), unread_tape(b2, 1), new_messages(b2, *p2)) =~= new_messages(b1, *p1));
            assert(self.messages_spec(b2.view.input@, b3.view.input@, unread_tape(b2, 1), unread_tape(b3, 1), new_messages(b3, *p3)) =~= new_messages(b2, *p2));
            assert(self.messages_spec(b3.view.input@, b1.view.input@, unread_tape(b3, 1), unread_tape(b1, 1), new_messages(b1, *p1)) =~= new_messages(b3, *p3));
            assert(self.output_spec(b1.view.input@, new_messages(b1, *p1)) =~= seq![o1]);
            assert(seq![new_messages(b1, *p1), new_messages(b2, *p2), new_messages(b3, *p3)] =~= self.decomposition_spec(
                b1.view.input@,
                b2.view.input@,
                b3.view.input@,
                unread_tape(b1, 1),
                unread_tape(b2, 1),
                unread_tape(b3, 1),
            ));
            assert(self.output_spec(b2.view.input@, new_messages(b2, *p2)) =~= seq![o2]);
            assert(self.output_spec(b3.view.input@, new_messages(b3, *p3)) =~= seq![o3]);
        }
        (vec![o1], vec![o2], vec![o3])
    }

    fn simulate_two_parties(&self, p: &mut Party, p_next: &mut Party) -> (r: Result<
        (Vec<u32>, Vec<u32>),
        Error,
    >) {
        if p_next.view.read_pos >= p_next.view.messages.len() {
            return Err(Error::MpcMessageMismatch);
        }
        let ghost (bp, bn) = (*p, *p_next);
        let input_p = (p.view.input[0], p.view.input[1]);
        let input_p_next = (p_next.view.input[0], p_next.view.input[1]);
        let (o1, o2) = mpc_temp2_verify(input_p, input_p_next, p, p_next)?;
        proof {
            assert(p.view.messages@ =~= bp.view.messages@ + seq![p.view.messages@.last()]);
            assert(new_messages(bp, *p) =~= seq![p.view.messages@.last()]);
            assert(unread_messages(bn, 1) =~= seq![bn.view.messages@[bn.view.read_pos as int]]);
            assert(self.messages_spec(bp.view.input@, bn.view.input@, unread_tape(bp, 1), unread_tape(bn, 1), unread_messages(bn, 1)) =~= new_messages(bp, *p));
            assert(self.output_spec(bp.view.input@, new_messages(bp, *p)) =~= seq![o1]);
            assert(self.output_spec(bn.view.input@, unread_messages(bn, 1)) =~= seq![o2]);
        }
        Ok((vec![o1], vec![o2]))
    }

    fn party_input_len(&self) -> (r: usize) {
        2
    }

    fn party_output_len(&self) -> (r: usize) {
        1
    }

    fn num_of_mul_gates(&self) -> (r: usize) {
        1
    }
}

/// The final step of SHA-256: the eight compression-output words added to the initial hash
/// value.
pub struct DigestCircuit;

/// The eight words of `v` as an array.
fn eight_words(v: &Vec<u32>) -> (r: [u32; 8])
    requires
        v@.len() == 8,
    ensures
        r@ == v@,
{
    let r = [v[0], v[1], v[2], v[3], v[4], v[5], v[6], v[7]];
    assert(r@ =~= v@);
    r
}

impl Circuit for DigestCircuit {
    open spec fn input_len_spec(&self) -> nat {
        8
    }

    open spec fn output_len_spec(&self) -> nat {
        8
    }

    open spec fn mul_gates_spec(&self) -> nat {
        8
    }

    open spec fn compute_spec(&self, input: Seq<u32>) -> Seq<u32> {
        digest_spec(input)
    }

    open spec fn messages_spec(
        &self,
        input: Seq<u32>,
        input_next: Seq<u32>,
        tape: Seq<u32>,
        tape_next: Seq<u32>,
        msgs_next: Seq<u32>,
    ) -> Seq<u32> {
        Seq::new(
            8,
            |k: int|
                final_carry(input[k], iv()[k], input_next[k], iv()[k], msgs_next[k], tape[k], tape_next[k]),
        )
    }

    open spec fn output_spec(&self, input: Seq<u32>, msgs: Seq<u32>) -> Seq<u32> {
        Seq::new(8, |k: int| input[k] ^ iv()[k] ^ msgs[k])
    }

    open spec fn decomposition_spec(
        &self,
        in1: Seq<u32>,
        in2: Seq<u32>,
        in3: Seq<u32>,
        t1: Seq<u32>,
        t2: Seq<u32>,
        t3: Seq<u32>,
    ) -> Seq<Seq<u32>> {
        let cs = Seq::new(
            8,
            |k: int| final_carries(in1[k], iv()[k], t1[k], in2[k], iv()[k], t2[k], in3[k], iv()[k], t3[k]),
        );
        seq![Seq::new(8, |k: int| cs[k].0), Seq::new(8, |k: int| cs[k].1), Seq::new(8, |k: int| cs[k].2)]
    }

    fn compute(&self, input: &Vec<u32>) -> (r: Vec<u32>) {
        let words = eight_words(input);
        digest(&words)
    }

    fn compute_23_decomposition(&self, p1: &mut Party, p2: &mut Party, p3: &mut Party) -> (r: (
        Vec<u32>,
        Vec<u32>,
        Vec<u32>,
    )) {
        let ghost (b1, b2, b3) = (*p1, *p2, *p3);
        let w1 = eight_words(&p1.view.input);
        let w2 = eight_words(&p2.view.input);
        let w3 = eight_words(&p3.view.input);
        let (o1, o2, o3) = mpc_digest(&w1, &w2, &w3, p1, p2, p3);
        proof {
            let (t1, t2, t3) = (unread_tape(b1, 8), unread_tape(b2, 8), unread_tape(b3, 8));
            let (m1, m2, m3) = (new_messages(b1, *p1), new_messages(b2, *p2), new_messages(b3, *p3));
            let (i1, i2, i3) = (b1.view.input@, b2.view.input@, b3.view.input@);
            assert forall|k: int| 0 <= k < 8 implies m1[k] == self.messages_spec(i1, i2, t1, t2, m2)[k]
                && o1@[k] == self.output_spec(i1, m1)[k] by {
                assert(digest_entry(i1, i2, t1, t2, m1, m2, o1@, k));
            }
            assert forall|k: int| 0 <= k < 8 implies m2[k] == self.messages_spec(i2, i3, t2, t3, m3)[k]
                && o2@[k] == self.output_spec(i2, m2)[k] by {
                assert(digest_entry(i2, i3, t2, t3, m2, m3, o2@, k));
            }
            assert forall|k: int| 0 <= k < 8 implies m3[k] == self.messages_spec(i3, i1, t3, t1, m1)[k]
                && o3@[k] == self.output_spec(i3, m3)[k] by {
                assert(digest_entry(i3, i1, t3, t1, m3, m1, o3@, k));
            }
            assert(m1 =~= self.messages_spec(i1, i2, t1, t2, m2));
            assert(m2 =~= self.messages_spec(i2, i3, t2, t3, m3));
            assert(m3 =~= self.messages_spec(i3, i1, t3, t1, m1));
            assert(o1@ =~= self.output_spec(i1, m1));
            assert(o2@ =~= self.output_spec(i2, m2));
            assert(o3@ =~= self.output_spec(i3, m3));
            let d = self.decomposition_spec(i1, i2, i3, t1, t2, t3);
            assert forall|k: int| 0 <= k < 8 implies m1[k] == d[0][k] && m2[k] == d[1][k] && m3[k] == d[2][k] by {
                assert(digest_joint_entry(i1, i2, i3, t1, t2, t3, m1, m2, m3, k));
            }
            assert(d[0] =~= m1);
            assert(d[1] =~= m2);
            assert(d[2] =~= m3);
            assert(seq![m1, m2, m3] =~= d);
        }
        (o1, o2, o3)
    }

    fn simulate_two_parties(&self, p: &mut Party, p_next: &mut Party) -> (r: Result<
        (Vec<u32>, Vec<u32>),
        Error,
    >) {
        let ghost (bp, bn) = (*p, *p_next);
        let w = eight_words(&p.view.input);
        let w_next = eight_words(&p_next.view.input);
        let (o1, o2) = mpc_digest_verify(&w, &w_next, p, p_next)?;
        proof {
            let (t, t_next) = (unread_tape(bp, 8), unread_tape(bn, 8));
            let m = new_messages(bp, *p);
            let m_next = unread_messages(bn, 8);
            let (i, i_next) = (bp.view.input@, bn.view.input@);
            assert forall|k: int| 0 <= k < 8 implies m[k] == self.messages_spec(i, i_next, t, t_next, m_next)[k]
                && o1@[k] == self.output_spec(i, m)[k] by {
                assert(digest_entry(i, i_next, t, t_next, m, m_next, o1@, k));
            }
            assert(m =~= self.messages_spec(i, i_next, t, t_next, m_next));
            assert(o1@ =~= self.output_spec(i, m));
            assert(o2@ =~= self.output_spec(i_next, m_next));
        }
        Ok((o1, o2))
    }

    fn party_input_len(&self) -> (r: usize) {
        8
    }

    fn party_output_len(&self) -> (r: usize) {
        8
    }

    fn num_of_mul_gates(&self) -> (r: usize) {
        8
    }
}

} // verus!
