use vstd::prelude::*;
use vstd::view::View as _;

use crate::add_mod::{
    add_mod_verify, add_mod_verify_k, adder, final_carries, final_carry, mpc_add_mod, mpc_add_mod_k,
};
use crate::error::Error;
use crate::gadgets::{
    and_share, has_message, has_tape, mpc_and, mpc_and_verify, new_messages, next_message,
    next_tape_word, replayed_many, replayed_one, sent_many, sent_one, unread_messages, unread_tape,
    xor_words,
};
use crate::party::Party;
use crate::word::add_word;

verus! {

/// `Ch(e, f, g)`: each bit of `e` chooses between `f` and `g`.
pub open spec fn ch_spec(e: u32, f: u32, g: u32) -> u32 {
    (e & f) ^ (!e & g)
}

/// `Maj(a, b, c)`: the bitwise majority.
pub open spec fn maj_spec(a: u32, b: u32, c: u32) -> u32 {
    (a & b) ^ (a & c) ^ (b & c)
}

pub fn ch(e: u32, f: u32, g: u32) -> (r: u32)
    ensures
        r == ch_spec(e, f, g),
{
    (e & f) ^ (!e & g)
}

pub fn maj(a: u32, b: u32, c: u32) -> (r: u32)
    ensures
        r == maj_spec(a, b, c),
{
    (a & b) ^ (a & c) ^ (b & c)
}

/// `Ch` on three parties, written as `(e & (f ^ g)) ^ g` so that it takes a single AND gate.
pub fn mpc_ch(
    input_p1: (u32, u32, u32),
    input_p2: (u32, u32, u32),
    input_p3: (u32, u32, u32),
    p1: &mut Party,
    p2: &mut Party,
    p3: &mut Party,
) -> (r: (u32, u32, u32))
    requires
        has_tape(*old(p1), 1),
        has_tape(*old(p2), 1),
        has_tape(*old(p3), 1),
    ensures
        r.0 ^ r.1 ^ r.2 == ch_spec(
            input_p1.0 ^ input_p2.0 ^ input_p3.0,
            input_p1.1 ^ input_p2.1 ^ input_p3.1,
            input_p1.2 ^ input_p2.2 ^ input_p3.2,
        ),
        ({
            let (e1, f1, g1) = input_p1;
            let (e2, f2, g2) = input_p2;
            let (e3, f3, g3) = input_p3;
            let (r1, r2, r3) = (next_tape_word(*old(p1)), next_tape_word(*old(p2)), next_tape_word(*old(p3)));
            let m1 = and_share(e1, f1 ^ g1, e2, f2 ^ g2, r1, r2);
            let m2 = and_share(e2, f2 ^ g2, e3, f3 ^ g3, r2, r3);
            let m3 = and_share(e3, f3 ^ g3, e1, f1 ^ g1, r3, r1);
            &&& r.0 == m1 ^ g1
            &&& r.1 == m2 ^ g2
            &&& r.2 == m3 ^ g3
            &&& sent_one(*old(p1), *final(p1), m1)
            &&& sent_one(*old(p2), *final(p2), m2)
            &&& sent_one(*old(p3), *final(p3), m3)
        }),
{
    let (e1, f1, g1) = input_p1;
    let (e2, f2, g2) = input_p2;
    let (e3, f3, g3) = input_p3;
    let (lhs_1, lhs_2, lhs_3) = mpc_and((e1, f1 ^ g1), (e2, f2 ^ g2), (e3, f3 ^ g3), p1, p2, p3);
    let output_p1 = lhs_1 ^ g1;
    let output_p2 = lhs_2 ^ g2;
    let output_p3 = lhs_3 ^ g3;
    proof {
        assert((lhs_1 ^ g1) ^ (lhs_2 ^ g2) ^ (lhs_3 ^ g3) == ch_spec(e1 ^ e2 ^ e3, f1 ^ f2 ^ f3, g1 ^ g2 ^ g3))
            by (bit_vector)
            requires
                lhs_1 ^ lhs_2 ^ lhs_3 == (e1 ^ e2 ^ e3) & ((f1 ^ g1) ^ (f2 ^ g2) ^ (f3 ^ g3)),
        ;
    }
    (output_p1, output_p2, output_p3)
}

/// The verifier's replay of `Ch` on parties `p` and `p_next`.
pub fn ch_verify(
    input_p: (u32, u32, u32),
    input_p_next: (u32, u32, u32),
    p: &mut Party,
    p_next: &mut Party,
) -> (r: Result<(u32, u32), Error>)
    requires
        has_tape(*old(p), 1),
        has_tape(*old(p_next), 1),
    ensures
        r is Ok <==> has_message(*old(p_next)),
        r is Ok ==> {
            let (e, f, g) = input_p;
            let (e_next, f_next, g_next) = input_p_next;
            let m = and_share(e, f ^ g, e_next, f_next ^ g_next, next_tape_word(*old(p)), next_tape_word(*old(p_next)));
            &&& r->Ok_0.0 == m ^ g
            &&& r->Ok_0.1 == next_message(*old(p_next)) ^ g_next
            &&& sent_one(*old(p), *final(p), m)
            &&& replayed_one(*old(p_next), *final(p_next))
        },
        r is Err ==> r->Err_0 == Error::MpcMessageMismatch && *final(p) == *old(p) && *final(p_next) == *old(p_next),
{
    let (e, f, g) = input_p;
    let (e_next, f_next, g_next) = input_p_next;
    let (lhs_p, lhs_p_next) = mpc_and_verify((e, f ^ g), (e_next, f_next ^ g_next), p, p_next)?;
    Ok((lhs_p ^ g, lhs_p_next ^ g_next))
}

/// `Maj` on three parties, written as `((a ^ b) & (a ^ c)) ^ a` so that it takes a single AND
/// gate.
pub fn mpc_maj(
    input_p1: (u32, u32, u32),
    input_p2: (u32, u32, u32),
    input_p3: (u32, u32, u32),
    p1: &mut Party,
    p2: &mut Party,
    p3: &mut Party,
) -> (r: (u32, u32, u32))
    requires
        has_tape(*old(p1), 1),
        has_tape(*old(p2), 1),
        has_tape(*old(p3), 1),
    ensures
        r.0 ^ r.1 ^ r.2 == maj_spec(
            input_p1.0 ^ input_p2.0 ^ input_p3.0,
            input_p1.1 ^ input_p2.1 ^ input_p3.1,
            input_p1.2 ^ input_p2.2 ^ input_p3.2,
        ),
        ({
            let (a1, b1, c1) = input_p1;
            let (a2, b2, c2) = input_p2;
            let (a3, b3, c3) = input_p3;
            let (r1, r2, r3) = (next_tape_word(*old(p1)), next_tape_word(*old(p2)), next_tape_word(*old(p3)));
            let m1 = and_share(a1 ^ b1, a1 ^ c1, a2 ^ b2, a2 ^ c2, r1, r2);
            let m2 = and_share(a2 ^ b2, a2 ^ c2, a3 ^ b3, a3 ^ c3, r2, r3);
            let m3 = and_share(a3 ^ b3, a3 ^ c3, a1 ^ b1, a1 ^ c1, r3, r1);
            &&& r.0 == m1 ^ a1
            &&& r.1 == m2 ^ a2
            &&& r.2 == m3 ^ a3
            &&& sent_one(*old(p1), *final(p1), m1)
            &&& sent_one(*old(p2), *final(p2), m2)
            &&& sent_one(*old(p3), *final(p3), m3)
        }),
{
    let (a1, b1, c1) = input_p1;
    let (a2, b2, c2) = input_p2;
    let (a3, b3, c3) = input_p3;
    let (lhs_1, lhs_2, lhs_3) = mpc_and(
        (a1 ^ b1, a1 ^ c1),
        (a2 ^ b2, a2 ^ c2),
        (a3 ^ b3, a3 ^ c3),
        p1,
        p2,
        p3,
    );
    let output_p1 = lhs_1 ^ a1;
    let output_p2 = lhs_2 ^ a2;
    let output_p3 = lhs_3 ^ a3;
    proof {
        assert((lhs_1 ^ a1) ^ (lhs_2 ^ a2) ^ (lhs_3 ^ a3) == maj_spec(a1 ^ a2 ^ a3, b1 ^ b2 ^ b3, c1 ^ c2 ^ c3))
            by (bit_vector)
            requires
                lhs_1 ^ lhs_2 ^ lhs_3 == ((a1 ^ b1) ^ (a2 ^ b2) ^ (a3 ^ b3)) & ((a1 ^ c1) ^ (a2 ^ c2) ^ (
                a3 ^ c3)),
        ;
    }
    (output_p1, output_p2, output_p3)
}

/// The verifier's replay of `Maj` on parties `p` and `p_next`.
pub fn maj_verify(
    input_p: (u32, u32, u32),
    input_p_next: (u32, u32, u32),
    p: &mut Party,
    p_next: &mut Party,
) -> (r: Result<(u32, u32), Error>)
    requires
        has_tape(*old(p), 1),
        has_tape(*old(p_next), 1),
    ensures
        r is Ok <==> has_message(*old(p_next)),
        r is Ok ==> {
            let (a, b, c) = input_p;
            let (a_next, b_next, c_next) = input_p_next;
            let m = and_share(a ^ b, a ^ c, a_next ^ b_next, a_next ^ c_next, next_tape_word(*old(p)), next_tape_word(*old(p_next)));
            &&& r->Ok_0.0 == m ^ a
            &&& r->Ok_0.1 == next_message(*old(p_next)) ^ a_next
            &&& sent_one(*old(p), *final(p), m)
            &&& replayed_one(*old(p_next), *final(p_next))
        },
        r is Err ==> r->Err_0 == Error::MpcMessageMismatch && *final(p) == *old(p) && *final(p_next) == *old(p_next),
{
    let (a, b, c) = input_p;
    let (a_next, b_next, c_next) = input_p_next;
    let (lhs_p, lhs_p_next) = mpc_and_verify(
        (a ^ b, a ^ c),
        (a_next ^ b_next, a_next ^ c_next),
        p,
        p_next,
    )?;
    Ok((lhs_p ^ a, lhs_p_next ^ a_next))
}

/// `temp2 := S0 + maj`, modulo 2^32.
pub fn temp2(s0: u32, maj: u32) -> (r: u32)
    ensures
        r == add_word(s0, maj),
{
    adder(s0, maj)
}

/// `temp2` on three parties: one shared addition.
pub fn mpc_temp2(
    input_p1: (u32, u32),
    input_p2: (u32, u32),
    input_p3: (u32, u32),
    p1: &mut Party,
    p2: &mut Party,
    p3: &mut Party,
) -> (r: (u32, u32, u32))
    requires
        has_tape(*old(p1), 1),
        has_tape(*old(p2), 1),
        has_tape(*old(p3), 1),
    ensures
        r.0 ^ r.1 ^ r.2 == add_word(input_p1.0 ^ input_p2.0 ^ input_p3.0, input_p1.1 ^ input_p2.1 ^ input_p3.1),
        ({
            let (x1, y1) = input_p1;
            let (x2, y2) = input_p2;
            let (x3, y3) = input_p3;
            let (r1, r2, r3) = (next_tape_word(*old(p1)), next_tape_word(*old(p2)), next_tape_word(*old(p3)));
            let c1 = final(p1).view.messages@.last();
            let c2 = final(p2).view.messages@.last();
            let c3 = final(p3).view.messages@.last();
            &&& (c1, c2, c3) == final_carries(x1, y1, r1, x2, y2, r2, x3, y3, r3)
            &&& c1 == final_carry(x1, y1, x2, y2, c2, r1, r2)
            &&& c2 == final_carry(x2, y2, x3, y3, c3, r2, r3)
            &&& c3 == final_carry(x3, y3, x1, y1, c1, r3, r1)
            &&& r.0 == x1 ^ y1 ^ c1
            &&& r.1 == x2 ^ y2 ^ c2
            &&& r.2 == x3 ^ y3 ^ c3
            &&& sent_one(*old(p1), *final(p1), c1)
            &&& sent_one(*old(p2), *final(p2), c2)
            &&& sent_one(*old(p3), *final(p3), c3)
        }),
{
    mpc_add_mod(input_p1, input_p2, input_p3, p1, p2, p3)
}

/// The verifier's replay of `temp2` on parties `p` and `p_next`.
pub fn mpc_temp2_verify(
    input_p: (u32, u32),
    input_p_next: (u32, u32),
    p: &mut Party,
    p_next: &mut Party,
) -> (r: Result<(u32, u32), Error>)
    requires
        has_tape(*old(p), 1),
        has_tape(*old(p_next), 1),
    ensures
        r is Ok <==> has_message(*old(p_next)),
        r is Ok ==> {
            let (x, y) = input_p;
            let (x_next, y_next) = input_p_next;
            let c_next = next_message(*old(p_next));
            let c = final_carry(x, y, x_next, y_next, c_next, next_tape_word(*old(p)), next_tape_word(*old(p_next)));
            &&& r->Ok_0.0 == x ^ y ^ c
            &&& r->Ok_0.1 == x_next ^ y_next ^ c_next
            &&& sent_one(*old(p), *final(p), c)
            &&& replayed_one(*old(p_next), *final(p_next))
        },
        r is Err ==> r->Err_0 == Error::MpcMessageMismatch && *final(p) == *old(p) && *final(p_next) == *old(p_next),
{
    add_mod_verify(input_p, input_p_next, p, p_next)
}

/// The initial hash value of SHA-256.
pub open spec fn iv() -> Seq<u32> {
    seq![
        0x6a09e667u32,
        0xbb67ae85u32,
        0x3c6ef372u32,
        0xa54ff53au32,
        0x510e527fu32,
        0x9b05688cu32,
        0x1f83d9abu32,
        0x5be0cd19u32,
    ]
}

/// The SHA-256 digest words from the eight words that the compression function produced.
pub open spec fn digest_spec(compression_output: Seq<u32>) -> Seq<u32> {
    Seq::new(8, |i: int| add_word(iv()[i], compression_output[i]))
}

pub fn init_iv() -> (r: [u32; 8])
    ensures
        r@ == iv(),
{
    let r = [
        0x6a09e667u32,
        0xbb67ae85u32,
        0x3c6ef372u32,
        0xa54ff53au32,
        0x510e527fu32,
        0x9b05688cu32,
        0x1f83d9abu32,
        0x5be0cd19u32,
    ];
    assert(r@ =~= iv());
    r
}

/// Adds the compression output to the initial hash value, word by word, modulo 2^32.
pub fn digest(compression_output: &[u32; 8]) -> (r: Vec<u32>)
    ensures
        r@ == digest_spec(compression_output@),
{
    let hs = init_iv();
    let mut out: Vec<u32> = Vec::with_capacity(8);
    let mut i: usize = 0;
    while i < 8
        invariant
            i <= 8,
            hs@ == iv(),
            out@ == digest_spec(compression_output@).take(i as int),
        decreases 8 - i,
    {
        out.push(adder(hs[i], compression_output[i]));
        i = i + 1;
        assert(out@ =~= digest_spec(compression_output@).take(i as int));
    }
    assert(out@ =~= digest_spec(compression_output@));
    out
}

/// How the messages `msgs` and outputs `out` of a party relate to those of the next party over
/// the first `n` additions of the final digest, where the party holds the words `x` and tape
/// words `tape`, and the next party holds `x_next`, `tape_next` and broadcast `msgs_next`.
pub open spec fn digest_party(
    x: Seq<u32>,
    x_next: Seq<u32>,
    tape: Seq<u32>,
    tape_next: Seq<u32>,
    msgs: Seq<u32>,
    msgs_next: Seq<u32>,
    out: Seq<u32>,
    n: int,
) -> bool {
    &&& out.len() == n
    &&& msgs.len() == n
    &&& forall|k: int|
        0 <= k < n ==> #[trigger] digest_entry(x, x_next, tape, tape_next, msgs, msgs_next, out, k)
}

/// Entry `k` of `digest_party`.
pub open spec fn digest_entry(
    x: Seq<u32>,
    x_next: Seq<u32>,
    tape: Seq<u32>,
    tape_next: Seq<u32>,
    msgs: Seq<u32>,
    msgs_next: Seq<u32>,
    out: Seq<u32>,
    k: int,
) -> bool {
    &&& msgs[k] == final_carry(x[k], iv()[k], x_next[k], iv()[k], msgs_next[k], tape[k], tape_next[k])
    &&& out[k] == x[k] ^ iv()[k] ^ msgs[k]
}

proof fn lemma_digest_party_push(
    x: Seq<u32>,
    x_next: Seq<u32>,
    tape: Seq<u32>,
    tape_next: Seq<u32>,
    msgs: Seq<u32>,
    msgs_next: Seq<u32>,
    msgs_next2: Seq<u32>,
    out: Seq<u32>,
    n: int,
    c: u32,
    o: u32,
)
    requires
        0 <= n,
        digest_party(x, x_next, tape, tape_next, msgs, msgs_next, out, n),
        msgs_next2.len() > n,
        forall|j: int| 0 <= j < n ==> msgs_next2[j] == msgs_next[j],
        c == final_carry(x[n], iv()[n], x_next[n], iv()[n], msgs_next2[n], tape[n], tape_next[n]),
        o == x[n] ^ iv()[n] ^ c,
    ensures
        digest_party(x, x_next, tape, tape_next, msgs.push(c), msgs_next2, out.push(o), n + 1),
{
    let out2 = out.push(o);
    let msgs2 = msgs.push(c);
    assert forall|k: int| 0 <= k < n + 1 implies #[trigger] digest_entry(
        x,
        x_next,
        tape,
        tape_next,
        msgs2,
        msgs_next2,
        out2,
        k,
    ) by {
        if k < n {
            assert(digest_entry(x, x_next, tape, tape_next, msgs, msgs_next, out, k));
            assert(out2[k] == out[k]);
            assert(msgs2[k] == msgs[k]);
            assert(msgs_next2[k] == msgs_next[k]);
        }
    }
}

/// Entry `k` of the three parties' final-digest messages, as a function of their words and tapes.
pub open spec fn digest_joint_entry(
    x1: Seq<u32>,
    x2: Seq<u32>,
    x3: Seq<u32>,
    t1: Seq<u32>,
    t2: Seq<u32>,
    t3: Seq<u32>,
    m1: Seq<u32>,
    m2: Seq<u32>,
    m3: Seq<u32>,
    k: int,
) -> bool {
    (m1[k], m2[k], m3[k]) == final_carries(x1[k], iv()[k], t1[k], x2[k], iv()[k], t2[k], x3[k], iv()[k], t3[k])
}

/// The final digest on three parties: eight shared additions of a public constant, one message
/// each.
pub fn mpc_digest(
    compression_output_p1: &[u32; 8],
    compression_output_p2: &[u32; 8],
    compression_output_p3: &[u32; 8],
    p1: &mut Party,
    p2: &mut Party,
    p3: &mut Party,
) -> (r: (Vec<u32>, Vec<u32>, Vec<u32>))
    requires
        has_tape(*old(p1), 8),
        has_tape(*old(p2), 8),
        has_tape(*old(p3), 8),
    ensures
        xor_words(r.0@, r.1@, r.2@) == digest_spec(
            xor_words(compression_output_p1@, compression_output_p2@, compression_output_p3@),
        ),
        ({
            let (t1, t2, t3) = (unread_tape(*old(p1), 8), unread_tape(*old(p2), 8), unread_tape(*old(p3), 8));
            let m1 = new_messages(*old(p1), *final(p1));
            let m2 = new_messages(*old(p2), *final(p2));
            let m3 = new_messages(*old(p3), *final(p3));
            &&& sent_many(*old(p1), *final(p1), m1)
            &&& sent_many(*old(p2), *final(p2), m2)
            &&& sent_many(*old(p3), *final(p3), m3)
            &&& digest_party(compression_output_p1@, compression_output_p2@, t1, t2, m1, m2, r.0@, 8)
            &&& digest_party(compression_output_p2@, compression_output_p3@, t2, t3, m2, m3, r.1@, 8)
            &&& digest_party(compression_output_p3@, compression_output_p1@, t3, t1, m3, m1, r.2@, 8)
            &&& forall|k: int|
                0 <= k < 8 ==> #[trigger] digest_joint_entry(
                    compression_output_p1@,
                    compression_output_p2@,
                    compression_output_p3@,
                    t1,
                    t2,
                    t3,
                    m1,
                    m2,
                    m3,
                    k,
                )
        }),
{
    let hs = init_iv();
    let mut output_1: Vec<u32> = Vec::with_capacity(8);
    let mut output_2: Vec<u32> = Vec::with_capacity(8);
    let mut output_3: Vec<u32> = Vec::with_capacity(8);
    let ghost x1 = compression_output_p1@;
    let ghost x2 = compression_output_p2@;
    let ghost x3 = compression_output_p3@;
    let ghost want = digest_spec(xor_words(x1, x2, x3));
    let ghost t1 = unread_tape(*p1, 8);
    let ghost t2 = unread_tape(*p2, 8);
    let ghost t3 = unread_tape(*p3, 8);
    let ghost mut m1: Seq<u32> = seq![];
    let ghost mut m2: Seq<u32> = seq![];
    let ghost mut m3: Seq<u32> = seq![];
    assert(p1.view.messages@ + m1 =~= p1.view.messages@);
    assert(p2.view.messages@ + m2 =~= p2.view.messages@);
    assert(p3.view.messages@ + m3 =~= p3.view.messages@);

    let mut i: usize = 0;
    while i < 8
        invariant
            i <= 8,
            hs@ == iv(),
            x1 == compression_output_p1@,
            x2 == compression_output_p2@,
            x3 == compression_output_p3@,
            want == digest_spec(xor_words(x1, x2, x3)),
            has_tape(*old(p1), 8),
            has_tape(*old(p2), 8),
            has_tape(*old(p3), 8),
            t1 == unread_tape(*old(p1), 8),
            t2 == unread_tape(*old(p2), 8),
            t3 == unread_tape(*old(p3), 8),
            m1.len() == i,
            sent_many(*old(p1), *p1, m1),
            sent_many(*old(p2), *p2, m2),
            sent_many(*old(p3), *p3, m3),
            digest_party(x1, x2, t1, t2, m1, m2, output_1@, i as int),
            digest_party(x2, x3, t2, t3, m2, m3, output_2@, i as int),
            digest_party(x3, x1, t3, t1, m3, m1, output_3@, i as int),
            xor_words(output_1@, output_2@, output_3@) == want.take(i as int),
            m2.len() == i && m3.len() == i,
            forall|k: int| 0 <= k < i ==> #[trigger] digest_joint_entry(x1, x2, x3, t1, t2, t3, m1, m2, m3, k),
        decreases 8 - i,
    {
        let ghost (b1, b2, b3) = (*p1, *p2, *p3);
        let ghost (m1_prev, m2_prev, m3_prev) = (m1, m2, m3);
        let ghost (o1_prev, o2_prev, o3_prev) = (output_1@, output_2@, output_3@);
        let (o1, o2, o3) = mpc_add_mod_k(
            compression_output_p1[i],
            compression_output_p2[i],
            compression_output_p3[i],
            hs[i],
            p1,
            p2,
            p3,
        );
        output_1.push(o1);
        output_2.push(o2);
        output_3.push(o3);
        proof {
            let k = i as int;
            m1 = m1.push(p1.view.messages@.last());
            m2 = m2.push(p2.view.messages@.last());
            m3 = m3.push(p3.view.messages@.last());
            assert(p1.view.messages@ =~= old(p1).view.messages@ + m1);
            assert(p2.view.messages@ =~= old(p2).view.messages@ + m2);
            assert(p3.view.messages@ =~= old(p3).view.messages@ + m3);
            assert(t1[k] == next_tape_word(b1));
            assert(t2[k] == next_tape_word(b2));
            assert(t3[k] == next_tape_word(b3));
            lemma_digest_party_push(x1, x2, t1, t2, m1_prev, m2_prev, m2, o1_prev, k, m1[k], o1);
            lemma_digest_party_push(x2, x3, t2, t3, m2_prev, m3_prev, m3, o2_prev, k, m2[k], o2);
            lemma_digest_party_push(x3, x1, t3, t1, m3_prev, m1_prev, m1, o3_prev, k, m3[k], o3);
            assert forall|q: int| 0 <= q < k + 1 implies #[trigger] digest_joint_entry(x1, x2, x3, t1, t2, t3, m1, m2, m3, q) by {
                if q < k {
                    assert(digest_joint_entry(x1, x2, x3, t1, t2, t3, m1_prev, m2_prev, m3_prev, q));
                    assert(m1[q] == m1_prev[q] && m2[q] == m2_prev[q] && m3[q] == m3_prev[q]);
                }
            }
            assert(m1 == m1_prev.push(m1[k]));
            assert(m2 == m2_prev.push(m2[k]));
            assert(m3 == m3_prev.push(m3[k]));
            assert(xor_words(output_1@, output_2@, output_3@) =~= want.take(k + 1));
        }
        i = i + 1;
    }
    proof {
        assert(want.take(8) =~= want);
        assert(new_messages(*old(p1), *p1) =~= m1);
        assert(new_messages(*old(p2), *p2) =~= m2);
        assert(new_messages(*old(p3), *p3) =~= m3);
    }
    (output_1, output_2, output_3)
}

/// The verifier's replay of the final digest on parties `p` and `p_next`.
pub fn mpc_digest_verify(
    compression_output_p: &[u32; 8],
    compression_output_p_next: &[u32; 8],
    p: &mut Party,
    p_next: &mut Party,
) -> (r: Result<(Vec<u32>, Vec<u32>), Error>)
    requires
        has_tape(*old(p), 8),
        has_tape(*old(p_next), 8),
    ensures
        r is Ok <==> old(p_next).view.read_pos + 8 <= old(p_next).view.messages@.len(),
        r is Ok ==> {
            let (o, o_next) = r->Ok_0;
            let m = new_messages(*old(p), *final(p));
            let m_next = unread_messages(*old(p_next), 8);
            let (t, t_next) = (unread_tape(*old(p), 8), unread_tape(*old(p_next), 8));
            &&& sent_many(*old(p), *final(p), m)
            &&& replayed_many(*old(p_next), *final(p_next), 8)
            &&& digest_party(compression_output_p@, compression_output_p_next@, t, t_next, m, m_next, o@, 8)
            &&& o_next@.len() == 8
            &&& forall|k: int|
                0 <= k < 8 ==> #[trigger] o_next@[k] == compression_output_p_next@[k] ^ iv()[k] ^ m_next[k]
        },
        r is Err ==> r->Err_0 == Error::MpcMessageMismatch && *final(p) == *old(p) && *final(p_next) == *old(p_next),
{
    if p_next.view.read_pos > p_next.view.messages.len() || p_next.view.messages.len() - p_next.view.read_pos < 8 {
        return Err(Error::MpcMessageMismatch);
    }
    let hs = init_iv();
    let mut output_p: Vec<u32> = Vec::with_capacity(8);
    let mut output_p_next: Vec<u32> = Vec::with_capacity(8);
    let ghost xp = compression_output_p@;
    let ghost xn = compression_output_p_next@;
    let ghost t = unread_tape(*p, 8);
    let ghost t_next = unread_tape(*p_next, 8);
    let ghost m_next = unread_messages(*p_next, 8);
    let ghost mut m: Seq<u32> = seq![];
    assert(p.view.messages@ + m =~= p.view.messages@);

    let mut i: usize = 0;
    while i < 8
        invariant
            i <= 8,
            hs@ == iv(),
            xp == compression_output_p@,
            xn == compression_output_p_next@,
            has_tape(*old(p), 8),
            has_tape(*old(p_next), 8),
            old(p_next).view.read_pos + 8 <= old(p_next).view.messages@.len(),
            t == unread_tape(*old(p), 8),
            t_next == unread_tape(*old(p_next), 8),
            m_next == unread_messages(*old(p_next), 8),
            sent_many(*old(p), *p, m),
            replayed_many(*old(p_next), *p_next, i as int),
            digest_party(xp, xn, t, t_next, m, m_next, output_p@, i as int),
            output_p_next@.len() == i,
            forall|k: int|
                0 <= k < i ==> #[trigger] output_p_next@[k] == xn[k] ^ iv()[k] ^ m_next[k],
        decreases 8 - i,
    {
        let ghost (bp, bn) = (*p, *p_next);
        let ghost m_prev = m;
        let ghost op_prev = output_p@;
        let (o1, o2) = add_mod_verify_k(
            compression_output_p[i],
            compression_output_p_next[i],
            hs[i],
            p,
            p_next,
        )?;
        output_p.push(o1);
        output_p_next.push(o2);
        proof {
            let k = i as int;
            m = m.push(p.view.messages@.last());
            assert(p.view.messages@ =~= old(p).view.messages@ + m);
            assert(t[k] == next_tape_word(bp));
            assert(t_next[k] == next_tape_word(bn));
            assert(m_next[k] == next_message(bn));
            lemma_digest_party_push(xp, xn, t, t_next, m_prev, m_next, m_next, op_prev, k, m[k], o1);
            assert(m == m_prev.push(m[k]));
        }
        i = i + 1;
    }
    assert(new_messages(*old(p), *p) =~= m);
    Ok((output_p, output_p_next))
}

} // verus!
