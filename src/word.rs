use vstd::prelude::*;

verus! {

/// Bit `i` of `w` (least significant bit has index 0).
pub open spec fn bit_of(w: u32, i: u32) -> bool {
    (w >> i) & 1u32 == 1u32
}

/// `w` with bit `i` forced to `b`.
pub open spec fn with_bit(w: u32, i: u32, b: bool) -> u32 {
    if b {
        w | (1u32 << i)
    } else {
        w & !(1u32 << i)
    }
}

/// Addition modulo 2^32.
pub open spec fn add_word(x: u32, y: u32) -> u32 {
    if x + y > u32::MAX {
        (x + y - 0x1_0000_0000) as u32
    } else {
        (x + y) as u32
    }
}

/// Reads bit `i` of `w`.
pub fn get_bit(w: u32, i: u32) -> (r: bool)
    requires
        i < 32,
    ensures
        r == bit_of(w, i),
{
    (w >> i) & 1 == 1
}

/// Returns `w` with bit `i` set to `b`.
pub fn set_bit(w: u32, i: u32, b: bool) -> (r: u32)
    requires
        i < 32,
    ensures
        r == with_bit(w, i, b),
{
    if b {
        w | (1u32 << i)
    } else {
        w & !(1u32 << i)
    }
}

/// `w` rotated right by `n` positions.
pub open spec fn rotr(w: u32, n: u32) -> u32 {
    if n == 0 {
        w
    } else {
        (w >> n) | (w << ((32 - n) as u32))
    }
}

/// `w` rotated left by `n` positions.
pub open spec fn rotl(w: u32, n: u32) -> u32 {
    if n == 0 {
        w
    } else {
        (w << n) | (w >> ((32 - n) as u32))
    }
}

/// Rotates `w` right by `n` positions.
pub fn rotate_right(w: u32, n: u32) -> (r: u32)
    requires
        n < 32,
    ensures
        r == rotr(w, n),
{
    if n == 0 {
        w
    } else {
        (w >> n) | (w << (32 - n))
    }
}

/// Rotates `w` left by `n` positions.
pub fn rotate_left(w: u32, n: u32) -> (r: u32)
    requires
        n < 32,
    ensures
        r == rotl(w, n),
{
    if n == 0 {
        w
    } else {
        (w << n) | (w >> (32 - n))
    }
}

/// Carry word of the sum: bit `i` is the carry into position `i`.
pub open spec fn carry_word(x: u32, y: u32) -> u32 {
    add_word(x, y) ^ x ^ y
}

/// The bits below position `n`.
pub open spec fn low_bits(w: u32, n: u32) -> u32 {
    w & (((1u64 << n) - 1u64) as u32)
}

/// One step of the ripple-carry recurrence extends the known carry bits by one.
pub proof fn lemma_carry_step(x: u32, y: u32, c: u32, i: u32)
    requires
        i < 31,
        c == low_bits(carry_word(x, y), (i + 1) as u32),
    ensures
        with_bit(c, (i + 1) as u32, (bit_of(x ^ c, i) && bit_of(y ^ c, i)) != bit_of(c, i))
            == low_bits(carry_word(x, y), (i + 2) as u32),
{
    let cv = carry_word(x, y);
    let j = (i + 1) as u32;
    let k = (i + 2) as u32;
    assert(with_bit(c, j, (bit_of(x ^ c, i) && bit_of(y ^ c, i)) != bit_of(c, i)) == low_bits(cv, k))
        by (bit_vector)
        requires
            i < 31,
            j == i + 1,
            k == i + 2,
            cv == add_word(x, y) ^ x ^ y,
            c == cv & (((1u64 << j) - 1u64) as u32),
    ;
}

pub proof fn lemma_bit_of_xor3(a: u32, b: u32, c: u32, i: u32)
    requires
        i < 32,
    ensures
        bit_of(a ^ b ^ c, i) == (bit_of(a, i) != bit_of(b, i) != bit_of(c, i)),
{
    assert(((a ^ b ^ c) >> i) & 1u32 == 1u32 <==> (((a >> i) & 1u32 == 1u32) != ((b >> i) & 1u32
        == 1u32) != ((c >> i) & 1u32 == 1u32))) by (bit_vector)
        requires
            i < 32,
    ;
}

/// Setting a bit leaves the other bits alone, and the bit set reads back.
pub proof fn lemma_with_bit_bits(c: u32, k: u32, b: bool, j: u32)
    requires
        k < 32,
        j < 32,
    ensures
        j != k ==> bit_of(with_bit(c, k, b), j) == bit_of(c, j),
        bit_of(with_bit(c, k, b), k) == b,
{
    assert(j != k ==> bit_of(with_bit(c, k, b), j) == bit_of(c, j)) by (bit_vector)
        requires
            k < 32,
            j < 32,
    ;
    assert(bit_of(with_bit(c, k, b), k) == b) by (bit_vector)
        requires
            k < 32,
    ;
}

/// Setting the same bit of three words commutes with XOR.
pub proof fn lemma_with_bit_xor3(c1: u32, c2: u32, c3: u32, k: u32, b1: bool, b2: bool, b3: bool)
    requires
        k < 32,
    ensures
        with_bit(c1, k, b1) ^ with_bit(c2, k, b2) ^ with_bit(c3, k, b3) == with_bit(
            c1 ^ c2 ^ c3,
            k,
            b1 != b2 != b3,
        ),
{
    assert(with_bit(c1, k, b1) ^ with_bit(c2, k, b2) ^ with_bit(c3, k, b3) == with_bit(
        c1 ^ c2 ^ c3,
        k,
        b1 != b2 != b3,
    )) by (bit_vector)
        requires
            k < 32,
    ;
}

pub proof fn lemma_carry_start(x: u32, y: u32)
    ensures
        low_bits(carry_word(x, y), 1) == 0,
{
    assert((add_word(x, y) ^ x ^ y) & (((1u64 << 1u32) - 1u64) as u32) == 0) by (bit_vector);
}

pub proof fn lemma_carry_finish(x: u32, y: u32, c: u32)
    requires
        c == low_bits(carry_word(x, y), 32),
    ensures
        x ^ y ^ c == add_word(x, y),
{
    assert(x ^ y ^ c == add_word(x, y)) by (bit_vector)
        requires
            c == (add_word(x, y) ^ x ^ y) & (((1u64 << 32u32) - 1u64) as u32),
    ;
}

} // verus!
