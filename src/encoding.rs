use vstd::prelude::*;

verus! {

/// The little-endian word held by the four bytes of `b` starting at `at`.
pub open spec fn le_word(b: Seq<u8>, at: int) -> u32 {
    (b[at] as u32) | ((b[at + 1] as u32) << 8u32) | ((b[at + 2] as u32) << 16u32) | ((b[at + 3] as u32)
        << 24u32)
}

/// The four little-endian bytes of `w`.
pub open spec fn le_bytes(w: u32) -> Seq<u8> {
    seq![
        (w & 0xffu32) as u8,
        ((w >> 8u32) & 0xffu32) as u8,
        ((w >> 16u32) & 0xffu32) as u8,
        ((w >> 24u32) & 0xffu32) as u8,
    ]
}

/// The words of `b` read four bytes at a time, little-endian.
pub open spec fn words_of(b: Seq<u8>) -> Seq<u32> {
    Seq::new(b.len() / 4, |i: int| le_word(b, 4 * i))
}

/// The concatenation of the little-endian encodings of `s`.
pub open spec fn bytes_of(s: Seq<u32>) -> Seq<u8>
    decreases s.len(),
{
    if s.len() == 0 {
        seq![]
    } else {
        bytes_of(s.drop_last()) + le_bytes(s.last())
    }
}

/// Reads the little-endian words of `b`; trailing bytes that do not fill a word are ignored.
pub fn words_from_le_bytes(b: &Vec<u8>) -> (r: Vec<u32>)
    ensures
        r@ == words_of(b@),
{
    let len = b.len();
    let n = len / 4;
    let mut out: Vec<u32> = Vec::with_capacity(n);
    let mut i: usize = 0;
    while i < n
        invariant
            len == b@.len(),
            n == len / 4,
            i <= n,
            out@ == words_of(b@).take(i as int),
        decreases n - i,
    {
        assert(4 * i + 3 < b@.len()) by (nonlinear_arith)
            requires
                i < n,
                n == len / 4,
                len == b@.len(),
        ;
        let base: usize = 4 * i;
        let w = (b[base] as u32) | ((b[base + 1] as u32) << 8u32) | ((b[base + 2] as u32) << 16u32)
            | ((b[base + 3] as u32) << 24u32);
        out.push(w);
        i = i + 1;
        assert(out@ =~= words_of(b@).take(i as int));
    }
    assert(out@ =~= words_of(b@));
    out
}

/// Appends the little-endian encoding of each word of `s` to `out`.
pub fn push_le_words(out: &mut Vec<u8>, s: &Vec<u32>)
    ensures
        final(out)@ == old(out)@ + bytes_of(s@),
{
    let mut i: usize = 0;
    while i < s.len()
        invariant
            i <= s@.len(),
            out@ == old(out)@ + bytes_of(s@.take(i as int)),
        decreases s.len() - i,
    {
        let w = s[i];
        out.push((w & 0xff) as u8);
        out.push(((w >> 8) & 0xff) as u8);
        out.push(((w >> 16) & 0xff) as u8);
        out.push(((w >> 24) & 0xff) as u8);
        proof {
            let t = s@.take(i as int + 1);
            assert(t.drop_last() =~= s@.take(i as int));
            assert(t.last() == w);
        }
        i = i + 1;
        assert(out@ =~= old(out)@ + bytes_of(s@.take(i as int)));
    }
    assert(s@.take(s@.len() as int) =~= s@);
}

/// Whether two word sequences are equal.
pub fn words_equal(a: &Vec<u32>, b: &Vec<u32>) -> (r: bool)
    ensures
        r == (a@ == b@),
{
    if a.len() != b.len() {
        return false;
    }
    let mut i: usize = 0;
    while i < a.len()
        invariant
            a@.len() == b@.len(),
            i <= a@.len(),
            forall|k: int| 0 <= k < i ==> a@[k] == b@[k],
        decreases a@.len() - i,
    {
        if a[i] != b[i] {
            return false;
        }
        i = i + 1;
    }
    assert(a@ =~= b@);
    true
}

/// Whether two byte sequences are equal.
pub fn bytes_equal(a: &Vec<u8>, b: &Vec<u8>) -> (r: bool)
    ensures
        r == (a@ == b@),
{
    if a.len() != b.len() {
        return false;
    }
    let mut i: usize = 0;
    while i < a.len()
        invariant
            a@.len() == b@.len(),
            i <= a@.len(),
            forall|k: int| 0 <= k < i ==> a@[k] == b@[k],
        decreases a@.len() - i,
    {
        if a[i] != b[i] {
            return false;
        }
        i = i + 1;
    }
    assert(a@ =~= b@);
    true
}

/// A copy of `v`.
pub fn copy_words(v: &Vec<u32>) -> (r: Vec<u32>)
    ensures
        r@ == v@,
{
    let mut out: Vec<u32> = Vec::with_capacity(v.len());
    let mut i: usize = 0;
    while i < v.len()
        invariant
            i <= v@.len(),
            out@ == v@.take(i as int),
        decreases v@.len() - i,
    {
        out.push(v[i]);
        i = i + 1;
        assert(out@ =~= v@.take(i as int));
    }
    assert(out@ =~= v@);
    out
}

/// A copy of `v`.
pub fn copy_bytes(v: &Vec<u8>) -> (r: Vec<u8>)
    ensures
        r@ == v@,
{
    let mut out: Vec<u8> = Vec::with_capacity(v.len());
    let mut i: usize = 0;
    while i < v.len()
        invariant
            i <= v@.len(),
            out@ == v@.take(i as int),
        decreases v@.len() - i,
    {
        out.push(v[i]);
        i = i + 1;
        assert(out@ =~= v@.take(i as int));
    }
    assert(out@ =~= v@);
    out
}

} // verus!
