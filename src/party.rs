use vstd::prelude::*;
use vstd::view::View as _;

use crate::tape::{tape_words, Tape};
use crate::view::View;

verus! {

/// A party of the MPC protocol: a random tape and a view.
pub struct Party {
    pub tape: Tape,
    pub view: View,
}

impl Party {
    /// A party with input share `share` and a tape of `tape_len` words expanded from `k`.
    pub fn new(share: Vec<u32>, k: [u8; 32], tape_len: usize) -> (r: Party)
        requires
            tape_len <= usize::MAX / 4,
        ensures
            r.tape.words@ == tape_words(k@, tape_len as nat),
            r.tape.words@.len() == tape_len,
            r.tape.pos == 0,
            r.view.input@ == share@,
            r.view.messages@ == Seq::<u32>::empty(),
            r.view.read_pos == 0,
    {
        let tape = Tape::from_key(&k, tape_len);
        let view = View::new(share);
        Party { tape, view }
    }

    pub fn from_tape_and_view(view: View, tape: Tape) -> (r: Party)
        ensures
            r.tape == tape,
            r.view == view,
    {
        Party { tape, view }
    }

    /// Reads the next word of the tape.
    pub fn read_tape(&mut self) -> (r: u32)
        requires
            old(self).tape.pos < old(self).tape.words@.len(),
        ensures
            r == old(self).tape.words@[old(self).tape.pos as int],
            final(self).tape.pos == old(self).tape.pos + 1,
            final(self).tape.words@ == old(self).tape.words@,
            final(self).view == old(self).view,
    {
        self.tape.read_next()
    }

    /// Reads the next message of the view.
    pub fn read_view(&mut self) -> (r: u32)
        requires
            old(self).view.read_pos < old(self).view.messages@.len(),
        ensures
            r == old(self).view.messages@[old(self).view.read_pos as int],
            final(self).view.read_pos == old(self).view.read_pos + 1,
            final(self).view.messages@ == old(self).view.messages@,
            final(self).view.input@ == old(self).view.input@,
            final(self).tape == old(self).tape,
    {
        self.view.read_next()
    }
}

} // verus!
