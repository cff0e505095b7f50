use vstd::prelude::*;

use crate::crypto::{chacha20_bytes, chacha20_stream};
use crate::encoding::{words_from_le_bytes, words_of};

verus! {

/// The words that a tape of `len` words expanded from `key` holds.
pub open spec fn tape_words(key: Seq<u8>, len: nat) -> Seq<u32> {
    words_of(chacha20_stream(key, 4 * len))
}

/// A party's random tape: a pre-expanded sequence of words read front to back.
pub struct Tape {
    pub words: Vec<u32>,
    pub pos: usize,
}

impl Tape {
    /// The tape is well formed when its cursor has not run past its end.
    pub open spec fn wf(&self) -> bool {
        self.pos <= self.words@.len()
    }

    /// How many words are left to read.
    pub open spec fn remaining(&self) -> int {
        self.words@.len() - self.pos
    }

    /// A tape holding `words`, with nothing read yet.
    pub fn new(words: Vec<u32>) -> (r: Tape)
        ensures
            r.words@ == words@,
            r.pos == 0,
            r.wf(),
    {
        Tape { words, pos: 0 }
    }

    /// Expands `key` into a tape of `len` words, read as little-endian from the ChaCha20 stream.
    pub fn from_key(key: &[u8; 32], len: usize) -> (r: Tape)
        requires
            len <= usize::MAX / 4,
        ensures
            r.words@ == tape_words(key@, len as nat),
            r.words@.len() == len,
            r.pos == 0,
            r.wf(),
    {
        let bytes = chacha20_bytes(key, 4 * len);
        let words = words_from_le_bytes(&bytes);
        Tape { words, pos: 0 }
    }

    /// Returns the next word and advances the cursor.
    pub fn read_next(&mut self) -> (r: u32)
        requires
            old(self).pos < old(self).words@.len(),
        ensures
            r == old(self).words@[old(self).pos as int],
            final(self).pos == old(self).pos + 1,
            final(self).words@ == old(self).words@,
            final(self).wf(),
    {
        let len = self.words.len();
        let w = self.words[self.pos];
        assert(self.pos < len);
        self.pos = self.pos + 1;
        w
    }

    /// Reads the next `n` words.
    pub fn read_words(&mut self, n: usize) -> (r: Vec<u32>)
        requires
            old(self).pos + n <= old(self).words@.len(),
        ensures
            r@ == old(self).words@.subrange(old(self).pos as int, old(self).pos + n),
            final(self).pos == old(self).pos + n,
            final(self).words@ == old(self).words@,
            final(self).wf(),
    {
        let mut out: Vec<u32> = Vec::with_capacity(n);
        let mut i: usize = 0;
        while i < n
            invariant
                i <= n,
                self.words@ == old(self).words@,
                self.pos == old(self).pos + i,
                old(self).pos + n <= old(self).words@.len(),
                out@ == old(self).words@.subrange(old(self).pos as int, old(self).pos + i),
            decreases n - i,
        {
            let w = self.read_next();
            out.push(w);
            i = i + 1;
            assert(out@ =~= old(self).words@.subrange(old(self).pos as int, old(self).pos + i));
        }
        out
    }
}

} // verus!