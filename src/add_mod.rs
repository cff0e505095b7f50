use vstd::prelude::*;

use vstd::view::View as _;

use crate::error::Error;
use crate::gadgets::{has_message, has_tape, next_message, next_tape_word, replayed_one, sent_one};
use crate::party::Party;
use crate::word::{
    add_word, bit_of, carry_word, get_bit, lemma_bit_of_xor3, lemma_carry_finish, lemma_carry_start,
    lemma_carry_step, lemma_with_bit_bits, lemma_with_bit_xor3, low_bits, set_bit, with_bit,
};

verus! {

/// Ripple-carry addition modulo 2^32, written bit by bit as the MPC gadgets evaluate it.
pub fn adder(x: u32, y: u32) -> (r: u32)
    ensures
        r == add_word(x, y),
{
    let mut carry: u32 = 0;
    proof {
        lemma_carry_start(x, y);
    }
    let mut i: u32 = 0;
    while i < 31
        invariant
            i <= 31,
            carry == low_bits(carry_word(x, y), (i + 1) as u32),
        decreases 31 - i,
    {
        let a = get_bit(x ^ carry, i);
        let b = get_bit(y ^ carry, i);
        let ci = (a && b) ^ get_bit(carry, i);
        proof {
            lemma_carry_step(x, y, carry, i);
        }
        carry = set_bit(carry, i + 1, ci);
        i = i + 1;
    }
    proof {
        lemma_carry_finish(x, y, carry);
    }
    x ^ y ^ carry
}

/// One bit of the 3-party AND protocol over GF(2).
pub open spec fn and_bit(input_p1: (bool, bool), input_p2: (bool, bool), r_p1: bool, r_p2: bool) -> bool {
    (input_p1.0 && input_p1.1) != (input_p1.0 && input_p2.1) != (input_p1.1 && input_p2.0) != (r_p1
        != r_p2)
}

/// Binary multiplication gate of the ZKBoo paper (p. 12): a party's share of the product of two
/// shared bits, from its own shares, the next party's shares and the two parties' random bits.
pub fn bit_and(input_p1: (bool, bool), input_p2: (bool, bool), r_p1: bool, r_p2: bool) -> (r: bool)
    ensures
        r == and_bit(input_p1, input_p2, r_p1, r_p2),
{
    (input_p1.0 && input_p1.1) ^ (input_p1.0 && input_p2.1) ^ (input_p1.1 && input_p2.0) ^ (r_p1
        ^ r_p2)
}

/// The three parties' bits of one AND gate over GF(2) reconstruct the AND of the shared bits:
/// the masks `r1`, `r2`, `r3` cancel.
pub proof fn lemma_and_bits_reconstruct(
    a1: bool,
    b1: bool,
    r1: bool,
    a2: bool,
    b2: bool,
    r2: bool,
    a3: bool,
    b3: bool,
    r3: bool,
)
    ensures
        (and_bit((a1, b1), (a2, b2), r1, r2) != and_bit((a2, b2), (a3, b3), r2, r3) != and_bit(
            (a3, b3),
            (a1, b1),
            r3,
            r1,
        )) == ((a1 != a2 != a3) && (b1 != b2 != b3)),
{
}

/// A party's AND bit is masked by the next party's random bit: flipping that bit flips the
/// output, whatever the shares and the party's own random bit.
pub proof fn lemma_and_bit_masked(input_p1: (bool, bool), input_p2: (bool, bool), r_p1: bool, r_p2: bool)
    ensures
        and_bit(input_p1, input_p2, r_p1, r_p2) != and_bit(input_p1, input_p2, r_p1, !r_p2),
{
}

/// The carry bit that a party computes at position `i`, from its own carry share `c` and the
/// next party's carry share `c_next`.
pub open spec fn carry_bit(
    x: u32,
    y: u32,
    x_next: u32,
    y_next: u32,
    c: u32,
    c_next: u32,
    r: u32,
    r_next: u32,
    i: u32,
) -> bool {
    and_bit(
        (bit_of(x ^ c, i), bit_of(y ^ c, i)),
        (bit_of(x_next ^ c_next, i), bit_of(y_next ^ c_next, i)),
        bit_of(r, i),
        bit_of(r_next, i),
    ) != bit_of(c, i)
}

/// The carry share of a party after the first `n` bit positions of the shared adder, where the
/// party holds `x`, `y` and random word `r`, and the next party holds `x_next`, `y_next`, random
/// word `r_next` and final carry share `c_next`.
pub open spec fn carry_share(
    x: u32,
    y: u32,
    x_next: u32,
    y_next: u32,
    c_next: u32,
    r: u32,
    r_next: u32,
    n: nat,
) -> u32
    decreases n,
{
    if n == 0 {
        0
    } else {
        let c = carry_share(x, y, x_next, y_next, c_next, r, r_next, (n - 1) as nat);
        with_bit(c, n as u32, carry_bit(x, y, x_next, y_next, c, c_next, r, r_next, (n - 1) as u32))
    }
}

/// The carry share that a party broadcasts at the end of the shared adder.
pub open spec fn final_carry(
    x: u32,
    y: u32,
    x_next: u32,
    y_next: u32,
    c_next: u32,
    r: u32,
    r_next: u32,
) -> u32 {
    carry_share(x, y, x_next, y_next, c_next, r, r_next, 31)
}

/// The three parties' carry shares after the first `n` bit positions of the shared adder, each
/// party holding its summand shares and random word.
pub open spec fn joint_carries(
    x1: u32,
    y1: u32,
    r1: u32,
    x2: u32,
    y2: u32,
    r2: u32,
    x3: u32,
    y3: u32,
    r3: u32,
    n: nat,
) -> (u32, u32, u32)
    decreases n,
{
    if n == 0 {
        (0, 0, 0)
    } else {
        let (c1, c2, c3) = joint_carries(x1, y1, r1, x2, y2, r2, x3, y3, r3, (n - 1) as nat);
        let j = (n - 1) as u32;
        (
            with_bit(c1, n as u32, carry_bit(x1, y1, x2, y2, c1, c2, r1, r2, j)),
            with_bit(c2, n as u32, carry_bit(x2, y2, x3, y3, c2, c3, r2, r3, j)),
            with_bit(c3, n as u32, carry_bit(x3, y3, x1, y1, c3, c1, r3, r1, j)),
        )
    }
}

/// The carry shares that the three parties broadcast at the end of the shared adder.
pub open spec fn final_carries(
    x1: u32,
    y1: u32,
    r1: u32,
    x2: u32,
    y2: u32,
    r2: u32,
    x3: u32,
    y3: u32,
    r3: u32,
) -> (u32, u32, u32) {
    joint_carries(x1, y1, r1, x2, y2, r2, x3, y3, r3, 31)
}

/// One position of a party's carry recurrence: sets bit `i + 1` of its carry share.
fn carry_step(
    x: u32,
    y: u32,
    x_next: u32,
    y_next: u32,
    c: u32,
    c_next: u32,
    r: u32,
    r_next: u32,
    i: u32,
) -> (res: u32)
    requires
        i < 31,
    ensures
        res == with_bit(c, (i + 1) as u32, carry_bit(x, y, x_next, y_next, c, c_next, r, r_next, i)),
{
    let ri = get_bit(r, i);
    let ri_next = get_bit(r_next, i);
    let a = get_bit(x ^ c, i);
    let b = get_bit(y ^ c, i);
    let a_next = get_bit(x_next ^ c_next, i);
    let b_next = get_bit(y_next ^ c_next, i);
    let ci = bit_and((a, b), (a_next, b_next), ri, ri_next) ^ get_bit(c, i);
    set_bit(c, i + 1, ci)
}

/// A carry share depends only on the bits of the next party's carry below the position reached.
proof fn lemma_carry_share_frame(
    x: u32,
    y: u32,
    x_next: u32,
    y_next: u32,
    c_next: u32,
    c_next2: u32,
    r: u32,
    r_next: u32,
    n: nat,
)
    requires
        n <= 31,
        forall|j: u32| j < n ==> bit_of(c_next, j) == bit_of(c_next2, j),
    ensures
        carry_share(x, y, x_next, y_next, c_next, r, r_next, n) == carry_share(
            x,
            y,
            x_next,
            y_next,
            c_next2,
            r,
            r_next,
            n,
        ),
    decreases n,
{
    if n > 0 {
        lemma_carry_share_frame(x, y, x_next, y_next, c_next, c_next2, r, r_next, (n - 1) as nat);
        let j = (n - 1) as u32;
        assert(bit_of(c_next, j) == bit_of(c_next2, j));
        lemma_bit_of_xor3(x_next, c_next, 0, j);
        lemma_bit_of_xor3(x_next, c_next2, 0, j);
        lemma_bit_of_xor3(y_next, c_next, 0, j);
        lemma_bit_of_xor3(y_next, c_next2, 0, j);
        lemma_xor_zero(x_next ^ c_next);
        lemma_xor_zero(x_next ^ c_next2);
        lemma_xor_zero(y_next ^ c_next);
        lemma_xor_zero(y_next ^ c_next2);
        lemma_bit_of_zero(j);
    }
}

proof fn lemma_xor_zero(a: u32)
    ensures
        a ^ 0 == a,
{
    assert(a ^ 0 == a) by (bit_vector);
}

proof fn lemma_bit_of_zero(j: u32)
    requires
        j < 32,
    ensures
        !bit_of(0, j),
{
    assert(!bit_of(0, j)) by (bit_vector)
        requires
            j < 32,
    ;
}

/// The sum of the three new carry bits is the plaintext carry recurrence on the summed shares.
proof fn lemma_carry_bits_sum(
    x1: u32,
    y1: u32,
    c1: u32,
    r1: u32,
    x2: u32,
    y2: u32,
    c2: u32,
    r2: u32,
    x3: u32,
    y3: u32,
    c3: u32,
    r3: u32,
    i: u32,
)
    requires
        i < 32,
    ensures
        ({
            let n1 = carry_bit(x1, y1, x2, y2, c1, c2, r1, r2, i);
            let n2 = carry_bit(x2, y2, x3, y3, c2, c3, r2, r3, i);
            let n3 = carry_bit(x3, y3, x1, y1, c3, c1, r3, r1, i);
            let xs = x1 ^ x2 ^ x3;
            let ys = y1 ^ y2 ^ y3;
            let cs = c1 ^ c2 ^ c3;
            (n1 != n2 != n3) == ((bit_of(xs ^ cs, i) && bit_of(ys ^ cs, i)) != bit_of(cs, i))
        }),
{
    let xs = x1 ^ x2 ^ x3;
    let ys = y1 ^ y2 ^ y3;
    let cs = c1 ^ c2 ^ c3;
    assert(xs ^ cs == (x1 ^ c1) ^ (x2 ^ c2) ^ (x3 ^ c3)) by (bit_vector)
        requires
            xs == x1 ^ x2 ^ x3,
            cs == c1 ^ c2 ^ c3,
    ;
    assert(ys ^ cs == (y1 ^ c1) ^ (y2 ^ c2) ^ (y3 ^ c3)) by (bit_vector)
        requires
            ys == y1 ^ y2 ^ y3,
            cs == c1 ^ c2 ^ c3,
    ;
    lemma_bit_of_xor3(x1 ^ c1, x2 ^ c2, x3 ^ c3, i);
    lemma_bit_of_xor3(y1 ^ c1, y2 ^ c2, y3 ^ c3, i);
    lemma_bit_of_xor3(c1, c2, c3, i);
}

/// The invariant of the shared adder's loop, after `i` bit positions.
pub open spec fn adder_state(
    x1: u32,
    y1: u32,
    c1: u32,
    r1: u32,
    x2: u32,
    y2: u32,
    c2: u32,
    r2: u32,
    x3: u32,
    y3: u32,
    c3: u32,
    r3: u32,
    i: nat,
) -> bool {
    &&& i <= 31
    &&& c1 == carry_share(x1, y1, x2, y2, c2, r1, r2, i)
    &&& c2 == carry_share(x2, y2, x3, y3, c3, r2, r3, i)
    &&& c3 == carry_share(x3, y3, x1, y1, c1, r3, r1, i)
    &&& c1 ^ c2 ^ c3 == low_bits(carry_word(x1 ^ x2 ^ x3, y1 ^ y2 ^ y3), (i + 1) as u32)
}

proof fn lemma_adder_state_start(x1: u32, y1: u32, r1: u32, x2: u32, y2: u32, r2: u32, x3: u32, y3: u32, r3: u32)
    ensures
        adder_state(x1, y1, 0, r1, x2, y2, 0, r2, x3, y3, 0, r3, 0),
{
    lemma_carry_start(x1 ^ x2 ^ x3, y1 ^ y2 ^ y3);
    assert(0u32 ^ 0u32 ^ 0u32 == 0u32) by (bit_vector);
}

proof fn lemma_adder_state_step(
    x1: u32,
    y1: u32,
    c1: u32,
    r1: u32,
    x2: u32,
    y2: u32,
    c2: u32,
    r2: u32,
    x3: u32,
    y3: u32,
    c3: u32,
    r3: u32,
    i: u32,
)
    requires
        i < 31,
        adder_state(x1, y1, c1, r1, x2, y2, c2, r2, x3, y3, c3, r3, i as nat),
    ensures
        ({
            let k = (i + 1) as u32;
            let n1 = with_bit(c1, k, carry_bit(x1, y1, x2, y2, c1, c2, r1, r2, i));
            let n2 = with_bit(c2, k, carry_bit(x2, y2, x3, y3, c2, c3, r2, r3, i));
            let n3 = with_bit(c3, k, carry_bit(x3, y3, x1, y1, c3, c1, r3, r1, i));
            adder_state(x1, y1, n1, r1, x2, y2, n2, r2, x3, y3, n3, r3, (i + 1) as nat)
        }),
{
    let k = (i + 1) as u32;
    let b1 = carry_bit(x1, y1, x2, y2, c1, c2, r1, r2, i);
    let b2 = carry_bit(x2, y2, x3, y3, c2, c3, r2, r3, i);
    let b3 = carry_bit(x3, y3, x1, y1, c3, c1, r3, r1, i);
    let n1 = with_bit(c1, k, b1);
    let n2 = with_bit(c2, k, b2);
    let n3 = with_bit(c3, k, b3);
    let xs = x1 ^ x2 ^ x3;
    let ys = y1 ^ y2 ^ y3;
    let cs = c1 ^ c2 ^ c3;
    lemma_carry_bits_sum(x1, y1, c1, r1, x2, y2, c2, r2, x3, y3, c3, r3, i);
    lemma_with_bit_xor3(c1, c2, c3, k, b1, b2, b3);
    lemma_carry_step(xs, ys, cs, i);
    assert forall|j: u32| j < k implies bit_of(c1, j) == bit_of(n1, j) by {
        lemma_with_bit_bits(c1, k, b1, j);
    }
    assert forall|j: u32| j < k implies bit_of(c2, j) == bit_of(n2, j) by {
        lemma_with_bit_bits(c2, k, b2, j);
    }
    assert forall|j: u32| j < k implies bit_of(c3, j) == bit_of(n3, j) by {
        lemma_with_bit_bits(c3, k, b3, j);
    }
    lemma_carry_share_frame(x1, y1, x2, y2, c2, n2, r1, r2, k as nat);
    lemma_carry_share_frame(x2, y2, x3, y3, c3, n3, r2, r3, k as nat);
    lemma_carry_share_frame(x3, y3, x1, y1, c1, n1, r3, r1, k as nat);
}

/// The output shares of the shared adder sum to the plaintext sum.
proof fn lemma_adder_state_finish(
    x1: u32,
    y1: u32,
    c1: u32,
    r1: u32,
    x2: u32,
    y2: u32,
    c2: u32,
    r2: u32,
    x3: u32,
    y3: u32,
    c3: u32,
    r3: u32,
)
    requires
        adder_state(x1, y1, c1, r1, x2, y2, c2, r2, x3, y3, c3, r3, 31),
    ensures
        (x1 ^ y1 ^ c1) ^ (x2 ^ y2 ^ c2) ^ (x3 ^ y3 ^ c3) == add_word(x1 ^ x2 ^ x3, y1 ^ y2 ^ y3),
{
    let xs = x1 ^ x2 ^ x3;
    let ys = y1 ^ y2 ^ y3;
    let cs = c1 ^ c2 ^ c3;
    lemma_carry_finish(xs, ys, cs);
    assert((x1 ^ y1 ^ c1) ^ (x2 ^ y2 ^ c2) ^ (x3 ^ y3 ^ c3) == xs ^ ys ^ cs) by (bit_vector)
        requires
            xs == x1 ^ x2 ^ x3,
            ys == y1 ^ y2 ^ y3,
            cs == c1 ^ c2 ^ c3,
    ;
}

/// The shared adder on three parties: each draws one tape word, runs the ripple-carry recurrence
/// with one AND per bit position, and broadcasts its whole carry share as a single message.
/// Party `j` holds the shares `(x_j, y_j)` of the two summands.
pub fn mpc_add_mod(
    input_p1: (u32, u32),
    input_p2: (u32, u32),
    input_p3: (u32, u32),
    p1: &mut Party,
    p2: &mut Party,
    p3: &mut Party,
) -> (r: (u32, u32, u32))
    requires
        has_tape(*old(p1), 1),
        has_tape(*old(p2), 1),
        has_tape(*old(p3), 1),
    ensures
        ({
            let (x1, y1) = input_p1;
            let (x2, y2) = input_p2;
            let (x3, y3) = input_p3;
            let (r1, r2, r3) = (next_tape_word(*old(p1)), next_tape_word(*old(p2)), next_tape_word(*old(p3)));
            let c1 = final(p1).view.messages@.last();
            let c2 = final(p2).view.messages@.last();
            let c3 = final(p3).view.messages@.last();
            &&& r.0 ^ r.1 ^ r.2 == add_word(x1 ^ x2 ^ x3, y1 ^ y2 ^ y3)
            &&& (c1, c2, c3) == final_carries(x1, y1, r1, x2, y2, r2, x3, y3, r3)
            &&& c1 == final_carry(x1, y1, x2, y2, c2, r1, r2)
            &&& c2 == final_carry(x2, y2, x3, y3, c3, r2, r3)
            &&& c3 == final_carry(x3, y3, x1, y1, c1, r3, r1)
            &&& r.0 == x1 ^ y1 ^ c1
            &&& r.1 == x2 ^ y2 ^ c2
            &&& r.2 == x3 ^ y3 ^ c3
            &&& sent_one(*old(p1), *final(p1), c1)
            &&& sent_one(*old(p2), *final(p2), c2)
            &&& sent_one(*old(p3), *final(p3), c3)
        }),
{
    let rand_p1 = p1.read_tape();
    let rand_p2 = p2.read_tape();
    let rand_p3 = p3.read_tape();
    let (x1, y1) = input_p1;
    let (x2, y2) = input_p2;
    let (x3, y3) = input_p3;

    let mut carry_p1: u32 = 0;
    let mut carry_p2: u32 = 0;
    let mut carry_p3: u32 = 0;
    proof {
        lemma_adder_state_start(x1, y1, rand_p1, x2, y2, rand_p2, x3, y3, rand_p3);
    }
    let mut i: u32 = 0;
    while i < 31
        invariant
            adder_state(
                x1, y1, carry_p1, rand_p1, x2, y2, carry_p2, rand_p2, x3, y3, carry_p3, rand_p3,
                i as nat,
            ),
            (carry_p1, carry_p2, carry_p3) == joint_carries(
                x1, y1, rand_p1, x2, y2, rand_p2, x3, y3, rand_p3, i as nat,
            ),
        decreases 31 - i,
    {
        proof {
            lemma_adder_state_step(
                x1, y1, carry_p1, rand_p1, x2, y2, carry_p2, rand_p2, x3, y3, carry_p3, rand_p3, i,
            );
        }
        let next_p1 = carry_step(x1, y1, x2, y2, carry_p1, carry_p2, rand_p1, rand_p2, i);
        let next_p2 = carry_step(x2, y2, x3, y3, carry_p2, carry_p3, rand_p2, rand_p3, i);
        let next_p3 = carry_step(x3, y3, x1, y1, carry_p3, carry_p1, rand_p3, rand_p1, i);
        carry_p1 = next_p1;
        carry_p2 = next_p2;
        carry_p3 = next_p3;
        i = i + 1;
    }
    proof {
        lemma_adder_state_finish(
            x1, y1, carry_p1, rand_p1, x2, y2, carry_p2, rand_p2, x3, y3, carry_p3, rand_p3,
        );
    }

    p1.view.send_msg(carry_p1);
    p2.view.send_msg(carry_p2);
    p3.view.send_msg(carry_p3);

    let o1 = x1 ^ y1 ^ carry_p1;
    let o2 = x2 ^ y2 ^ carry_p2;
    let o3 = x3 ^ y3 ^ carry_p3;
    (o1, o2, o3)
}

/// The shared adder with a public summand `k`: every party uses `k` as its share of the second
/// summand, so the shares of the result sum to `x + k`.
pub fn mpc_add_mod_k(
    input_p1: u32,
    input_p2: u32,
    input_p3: u32,
    k: u32,
    p1: &mut Party,
    p2: &mut Party,
    p3: &mut Party,
) -> (r: (u32, u32, u32))
    requires
        has_tape(*old(p1), 1),
        has_tape(*old(p2), 1),
        has_tape(*old(p3), 1),
    ensures
        ({
            let (x1, x2, x3) = (input_p1, input_p2, input_p3);
            let (r1, r2, r3) = (next_tape_word(*old(p1)), next_tape_word(*old(p2)), next_tape_word(*old(p3)));
            let c1 = final(p1).view.messages@.last();
            let c2 = final(p2).view.messages@.last();
            let c3 = final(p3).view.messages@.last();
            &&& r.0 ^ r.1 ^ r.2 == add_word(x1 ^ x2 ^ x3, k)
            &&& (c1, c2, c3) == final_carries(x1, k, r1, x2, k, r2, x3, k, r3)
            &&& c1 == final_carry(x1, k, x2, k, c2, r1, r2)
            &&& c2 == final_carry(x2, k, x3, k, c3, r2, r3)
            &&& c3 == final_carry(x3, k, x1, k, c1, r3, r1)
            &&& r.0 == x1 ^ k ^ c1
            &&& r.1 == x2 ^ k ^ c2
            &&& r.2 == x3 ^ k ^ c3
            &&& sent_one(*old(p1), *final(p1), c1)
            &&& sent_one(*old(p2), *final(p2), c2)
            &&& sent_one(*old(p3), *final(p3), c3)
        }),
{
    proof {
        assert(k ^ k ^ k == k) by (bit_vector);
    }
    mpc_add_mod((input_p1, k), (input_p2, k), (input_p3, k), p1, p2, p3)
}

/// The shared adder replayed by a verifier on two parties: party `p`'s carry share is recomputed
/// from its tape and broadcast; party `p_next`'s carry share is the next message of its view.
pub fn add_mod_verify(
    input_p: (u32, u32),
    input_p_next: (u32, u32),
    p: &mut Party,
    p_next: &mut Party,
) -> (r: Result<(u32, u32), Error>)
    requires
        has_tape(*old(p), 1),
        has_tape(*old(p_next), 1),
    ensures
        r is Ok <==> has_message(*old(p_next)),
        r is Ok ==> {
            let (x, y) = input_p;
            let (x_next, y_next) = input_p_next;
            let c_next = next_message(*old(p_next));
            let c = final_carry(x, y, x_next, y_next, c_next, next_tape_word(*old(p)), next_tape_word(*old(p_next)));
            &&& r->Ok_0.0 == x ^ y ^ c
            &&& r->Ok_0.1 == x_next ^ y_next ^ c_next
            &&& sent_one(*old(p), *final(p), c)
            &&& replayed_one(*old(p_next), *final(p_next))
        },
        r is Err ==> r->Err_0 == Error::MpcMessageMismatch && *final(p) == *old(p) && *final(p_next) == *old(p_next),
{
    if p_next.view.read_pos >= p_next.view.messages.len() {
        return Err(Error::MpcMessageMismatch);
    }
    let ri = p.read_tape();
    let ri_next = p_next.read_tape();
    let carry_p_next = p_next.read_view();
    let (x, y) = input_p;
    let (x_next, y_next) = input_p_next;

    let mut carry_p: u32 = 0;
    let mut i: u32 = 0;
    while i < 31
        invariant
            i <= 31,
            carry_p == carry_share(x, y, x_next, y_next, carry_p_next, ri, ri_next, i as nat),
        decreases 31 - i,
    {
        carry_p = carry_step(x, y, x_next, y_next, carry_p, carry_p_next, ri, ri_next, i);
        i = i + 1;
    }

    p.view.send_msg(carry_p);

    let o1 = x ^ y ^ carry_p;
    let o2 = x_next ^ y_next ^ carry_p_next;
    Ok((o1, o2))
}

/// The verifier's replay of the shared adder with a public summand `k`.
pub fn add_mod_verify_k(
    input_p: u32,
    input_p_next: u32,
    k: u32,
    p: &mut Party,
    p_next: &mut Party,
) -> (r: Result<(u32, u32), Error>)
    requires
        has_tape(*old(p), 1),
        has_tape(*old(p_next), 1),
    ensures
        r is Ok <==> has_message(*old(p_next)),
        r is Ok ==> {
            let c_next = next_message(*old(p_next));
            let c = final_carry(input_p, k, input_p_next, k, c_next, next_tape_word(*old(p)), next_tape_word(*old(p_next)));
            &&& r->Ok_0.0 == input_p ^ k ^ c
            &&& r->Ok_0.1 == input_p_next ^ k ^ c_next
            &&& sent_one(*old(p), *final(p), c)
            &&& replayed_one(*old(p_next), *final(p_next))
        },
        r is Err ==> r->Err_0 == Error::MpcMessageMismatch && *final(p) == *old(p) && *final(p_next) == *old(p_next),
{
    add_mod_verify((input_p, k), (input_p_next, k), p, p_next)
}

} // verus!
