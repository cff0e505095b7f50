use vstd::prelude::*;
use vstd::view::View as _;

use crate::error::Error;
use crate::party::Party;
use crate::word::{rotate_left, rotate_right, rotl, rotr};

verus! {

/// Party `p`'s share of `x & y` in the 3-party AND protocol, from its own shares, the next
/// party's shares and the two parties' tape words.
pub open spec fn and_share(x: u32, y: u32, x_next: u32, y_next: u32, r: u32, r_next: u32) -> u32 {
    (x & y) ^ (x_next & y) ^ (x & y_next) ^ r ^ r_next
}

/// The next unread word of `p`'s tape.
pub open spec fn next_tape_word(p: Party) -> u32 {
    p.tape.words@[p.tape.pos as int]
}

/// `p` has at least `n` unread tape words.
pub open spec fn has_tape(p: Party, n: int) -> bool {
    p.tape.pos + n <= p.tape.words@.len()
}

/// `after` is `before` with one tape word read and `msg` broadcast.
pub open spec fn sent_one(before: Party, after: Party, msg: u32) -> bool {
    &&& after.tape.words@ == before.tape.words@
    &&& after.tape.pos == before.tape.pos + 1
    &&& after.view.input@ == before.view.input@
    &&& after.view.messages@ == before.view.messages@.push(msg)
    &&& after.view.read_pos == before.view.read_pos
}

/// `after` is `before` with one tape word read and one message of its view replayed.
pub open spec fn replayed_one(before: Party, after: Party) -> bool {
    &&& after.tape.words@ == before.tape.words@
    &&& after.tape.pos == before.tape.pos + 1
    &&& after.view.input@ == before.view.input@
    &&& after.view.messages@ == before.view.messages@
    &&& after.view.read_pos == before.view.read_pos + 1
}

/// The next message of `p`'s view that has not been replayed.
pub open spec fn next_message(p: Party) -> u32 {
    p.view.messages@[p.view.read_pos as int]
}

/// `p` has a message left to replay.
pub open spec fn has_message(p: Party) -> bool {
    p.view.read_pos < p.view.messages@.len()
}

/// The three parties' shares of `x & y` in one AND gate.
pub open spec fn and_layer(
    x1: u32,
    y1: u32,
    r1: u32,
    x2: u32,
    y2: u32,
    r2: u32,
    x3: u32,
    y3: u32,
    r3: u32,
) -> (u32, u32, u32) {
    (and_share(x1, y1, x2, y2, r1, r2), and_share(x2, y2, x3, y3, r2, r3), and_share(x3, y3, x1, y1, r3, r1))
}

pub proof fn lemma_and_shares(x1: u32, y1: u32, x2: u32, y2: u32, x3: u32, y3: u32, r1: u32, r2: u32, r3: u32)
    ensures
        and_share(x1, y1, x2, y2, r1, r2) ^ and_share(x2, y2, x3, y3, r2, r3) ^ and_share(
            x3,
            y3,
            x1,
            y1,
            r3,
            r1,
        ) == (x1 ^ x2 ^ x3) & (y1 ^ y2 ^ y3),
{
    assert(((x1 & y1) ^ (x2 & y1) ^ (x1 & y2) ^ r1 ^ r2) ^ ((x2 & y2) ^ (x3 & y2) ^ (x2 & y3) ^ r2 ^ r3)
        ^ ((x3 & y3) ^ (x1 & y3) ^ (x3 & y1) ^ r3 ^ r1) == (x1 ^ x2 ^ x3) & (y1 ^ y2 ^ y3))
        by (bit_vector);
}

/// XOR is linear: each party XORs its own shares.
pub fn mpc_xor(input_p1: (u32, u32), input_p2: (u32, u32), input_p3: (u32, u32)) -> (r: (
    u32,
    u32,
    u32,
))
    ensures
        r.0 == input_p1.0 ^ input_p1.1,
        r.1 == input_p2.0 ^ input_p2.1,
        r.2 == input_p3.0 ^ input_p3.1,
        r.0 ^ r.1 ^ r.2 == (input_p1.0 ^ input_p2.0 ^ input_p3.0) ^ (input_p1.1 ^ input_p2.1
            ^ input_p3.1),
{
    let r = (input_p1.0 ^ input_p1.1, input_p2.0 ^ input_p2.1, input_p3.0 ^ input_p3.1);
    let (a1, b1, a2, b2, a3, b3) = (input_p1.0, input_p1.1, input_p2.0, input_p2.1, input_p3.0, input_p3.1);
    assert((a1 ^ b1) ^ (a2 ^ b2) ^ (a3 ^ b3) == (a1 ^ a2 ^ a3) ^ (b1 ^ b2 ^ b3)) by (bit_vector);
    r
}

/// A party's AND share is masked by the next party's tape word: two words `r_next`, `r_next2`
/// give shares that differ by exactly `r_next ^ r_next2`, so the share is a bijection of the
/// word that the party's own view does not hold.
pub proof fn lemma_and_share_masked(x: u32, y: u32, x_next: u32, y_next: u32, r: u32, r_next: u32, r_next2: u32)
    ensures
        and_share(x, y, x_next, y_next, r, r_next) ^ and_share(x, y, x_next, y_next, r, r_next2) == r_next
            ^ r_next2,
{
    assert(((x & y) ^ (x_next & y) ^ (x & y_next) ^ r ^ r_next) ^ ((x & y) ^ (x_next & y) ^ (x & y_next)
        ^ r ^ r_next2) == r_next ^ r_next2) by (bit_vector);
}

/// Rotation right is linear: each party rotates its own share.
pub fn mpc_rotate_right(input: (u32, u32, u32), n: u32) -> (r: (u32, u32, u32))
    requires
        n < 32,
    ensures
        r == (rotr(input.0, n), rotr(input.1, n), rotr(input.2, n)),
        r.0 ^ r.1 ^ r.2 == rotr(input.0 ^ input.1 ^ input.2, n),
{
    let (a, b, c) = input;
    assert(rotr(a, n) ^ rotr(b, n) ^ rotr(c, n) == rotr(a ^ b ^ c, n)) by (bit_vector)
        requires
            n < 32,
    ;
    (rotate_right(a, n), rotate_right(b, n), rotate_right(c, n))
}

/// Rotation left is linear: each party rotates its own share.
pub fn mpc_rotate_left(input: (u32, u32, u32), n: u32) -> (r: (u32, u32, u32))
    requires
        n < 32,
    ensures
        r == (rotl(input.0, n), rotl(input.1, n), rotl(input.2, n)),
        r.0 ^ r.1 ^ r.2 == rotl(input.0 ^ input.1 ^ input.2, n),
{
    let (a, b, c) = input;
    assert(rotl(a, n) ^ rotl(b, n) ^ rotl(c, n) == rotl(a ^ b ^ c, n)) by (bit_vector)
        requires
            n < 32,
    ;
    (rotate_left(a, n), rotate_left(b, n), rotate_left(c, n))
}

/// Logical shift right is linear: each party shifts its own share.
pub fn mpc_shift_right(input: (u32, u32, u32), n: u32) -> (r: (u32, u32, u32))
    requires
        n < 32,
    ensures
        r == (input.0 >> n, input.1 >> n, input.2 >> n),
        r.0 ^ r.1 ^ r.2 == (input.0 ^ input.1 ^ input.2) >> n,
{
    let (a, b, c) = input;
    assert((a >> n) ^ (b >> n) ^ (c >> n) == (a ^ b ^ c) >> n) by (bit_vector)
        requires
            n < 32,
    ;
    (a >> n, b >> n, c >> n)
}

/// The 3-party AND gate: each party draws one tape word, computes its share of `x & y` and
/// broadcasts it.
pub fn mpc_and(
    input_p1: (u32, u32),
    input_p2: (u32, u32),
    input_p3: (u32, u32),
    p1: &mut Party,
    p2: &mut Party,
    p3: &mut Party,
) -> (r: (u32, u32, u32))
    requires
        has_tape(*old(p1), 1),
        has_tape(*old(p2), 1),
        has_tape(*old(p3), 1),
    ensures
        r.0 == and_share(input_p1.0, input_p1.1, input_p2.0, input_p2.1, next_tape_word(*old(p1)), next_tape_word(*old(p2))),
        r.1 == and_share(input_p2.0, input_p2.1, input_p3.0, input_p3.1, next_tape_word(*old(p2)), next_tape_word(*old(p3))),
        r.2 == and_share(input_p3.0, input_p3.1, input_p1.0, input_p1.1, next_tape_word(*old(p3)), next_tape_word(*old(p1))),
        r.0 ^ r.1 ^ r.2 == (input_p1.0 ^ input_p2.0 ^ input_p3.0) & (input_p1.1 ^ input_p2.1 ^ input_p3.1),
        sent_one(*old(p1), *final(p1), r.0),
        sent_one(*old(p2), *final(p2), r.1),
        sent_one(*old(p3), *final(p3), r.2),
{
    let r1 = p1.read_tape();
    let r2 = p2.read_tape();
    let r3 = p3.read_tape();
    let (x1, y1) = input_p1;
    let (x2, y2) = input_p2;
    let (x3, y3) = input_p3;
    let o1 = (x1 & y1) ^ (x2 & y1) ^ (x1 & y2) ^ r1 ^ r2;
    let o2 = (x2 & y2) ^ (x3 & y2) ^ (x2 & y3) ^ r2 ^ r3;
    let o3 = (x3 & y3) ^ (x1 & y3) ^ (x3 & y1) ^ r3 ^ r1;
    p1.view.send_msg(o1);
    p2.view.send_msg(o2);
    p3.view.send_msg(o3);
    proof {
        lemma_and_shares(x1, y1, x2, y2, x3, y3, r1, r2, r3);
    }
    (o1, o2, o3)
}

/// The AND gate replayed by a verifier on two parties: party `p`'s share is recomputed from its
/// tape and broadcast; party `p_next`'s share is the next message of its view.
pub fn mpc_and_verify(
    input_p: (u32, u32),
    input_p_next: (u32, u32),
    p: &mut Party,
    p_next: &mut Party,
) -> (r: Result<(u32, u32), Error>)
    requires
        has_tape(*old(p), 1),
        has_tape(*old(p_next), 1),
    ensures
        r is Ok <==> has_message(*old(p_next)),
        r is Ok ==> {
            let (o, o_next) = r->Ok_0;
            &&& o == and_share(input_p.0, input_p.1, input_p_next.0, input_p_next.1, next_tape_word(*old(p)), next_tape_word(*old(p_next)))
            &&& o_next == next_message(*old(p_next))
            &&& sent_one(*old(p), *final(p), o)
            &&& replayed_one(*old(p_next), *final(p_next))
        },
        r is Err ==> r->Err_0 == Error::MpcMessageMismatch && *final(p) == *old(p) && *final(p_next) == *old(p_next),
{
    if p_next.view.read_pos >= p_next.view.messages.len() {
        return Err(Error::MpcMessageMismatch);
    }
    let r = p.read_tape();
    let r_next = p_next.read_tape();
    let (x, y) = input_p;
    let (x_next, y_next) = input_p_next;
    let o = (x & y) ^ (x_next & y) ^ (x & y_next) ^ r ^ r_next;
    p.view.send_msg(o);
    let o_next = p_next.read_view();
    Ok((o, o_next))
}

/// Word-by-word XOR of three sequences of shares.
pub open spec fn xor_words(a: Seq<u32>, b: Seq<u32>, c: Seq<u32>) -> Seq<u32> {
    Seq::new(a.len(), |i: int| a[i] ^ b[i] ^ c[i])
}

/// `after` is `before` with `msgs.len()` more tape words read and `msgs` broadcast.
pub open spec fn sent_many(before: Party, after: Party, msgs: Seq<u32>) -> bool {
    &&& after.tape.words@ == before.tape.words@
    &&& after.tape.pos == before.tape.pos + msgs.len()
    &&& after.view.input@ == before.view.input@
    &&& after.view.messages@ == before.view.messages@ + msgs
    &&& after.view.read_pos == before.view.read_pos
}

/// The messages that `after` broadcast since `before`.
pub open spec fn new_messages(before: Party, after: Party) -> Seq<u32> {
    after.view.messages@.subrange(before.view.messages@.len() as int, after.view.messages@.len() as int)
}

/// The `n` unread words of `p`'s tape from its cursor on.
pub open spec fn unread_tape(p: Party, n: int) -> Seq<u32> {
    p.tape.words@.subrange(p.tape.pos as int, p.tape.pos + n)
}

/// The `n` messages of `p`'s view from its replay cursor on.
pub open spec fn unread_messages(p: Party, n: int) -> Seq<u32> {
    p.view.messages@.subrange(p.view.read_pos as int, p.view.read_pos + n)
}

/// `after` is `before` with `n` more tape words read and `n` more messages replayed.
pub open spec fn replayed_many(before: Party, after: Party, n: int) -> bool {
    &&& after.tape.words@ == before.tape.words@
    &&& after.tape.pos == before.tape.pos + n
    &&& after.view.input@ == before.view.input@
    &&& after.view.messages@ == before.view.messages@
    &&& after.view.read_pos == before.view.read_pos + n
}

/// Word-by-word XOR of three equally long sequences.
pub fn xor3(a: &Vec<u32>, b: &Vec<u32>, c: &Vec<u32>) -> (r: Vec<u32>)
    requires
        a@.len() == b@.len(),
        a@.len() == c@.len(),
    ensures
        r@ == xor_words(a@, b@, c@),
{
    let mut out: Vec<u32> = Vec::with_capacity(a.len());
    let mut i: usize = 0;
    while i < a.len()
        invariant
            a@.len() == b@.len(),
            a@.len() == c@.len(),
            i <= a@.len(),
            out@ == xor_words(a@, b@, c@).take(i as int),
        decreases a@.len() - i,
    {
        out.push(a[i] ^ b[i] ^ c[i]);
        i = i + 1;
        assert(out@ =~= xor_words(a@, b@, c@).take(i as int));
    }
    assert(out@ =~= xor_words(a@, b@, c@));
    out
}

} // verus!
