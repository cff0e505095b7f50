use vstd::prelude::*;
use vstd::view::View as _;

verus! {

/// A party's transcript: its input share and the messages it broadcast, in order.
/// `read_pos` is how far a verifier has replayed the messages.
pub struct View {
    pub input: Vec<u32>,
    pub messages: Vec<u32>,
    pub read_pos: usize,
}

impl View {
    /// The view is well formed when its replay cursor has not run past its messages.
    pub open spec fn wf(&self) -> bool {
        self.read_pos <= self.messages@.len()
    }

    /// A view with the given input share and no messages.
    pub fn new(input: Vec<u32>) -> (r: View)
        ensures
            r.input@ == input@,
            r.messages@ == Seq::<u32>::empty(),
            r.read_pos == 0,
            r.wf(),
    {
        View { input, messages: Vec::new(), read_pos: 0 }
    }

    /// A view whose messages are already known, to be replayed from the start.
    pub fn with_messages(input: Vec<u32>, messages: Vec<u32>) -> (r: View)
        ensures
            r.input@ == input@,
            r.messages@ == messages@,
            r.read_pos == 0,
            r.wf(),
    {
        View { input, messages, read_pos: 0 }
    }

    /// Appends a broadcast message.
    pub fn send_msg(&mut self, msg: u32)
        ensures
            final(self).messages@ == old(self).messages@.push(msg),
            final(self).input@ == old(self).input@,
            final(self).read_pos == old(self).read_pos,
            old(self).wf() ==> final(self).wf(),
    {
        self.messages.push(msg);
    }

    /// Returns the next message not yet replayed and advances the replay cursor.
    pub fn read_next(&mut self) -> (r: u32)
        requires
            old(self).read_pos < old(self).messages@.len(),
        ensures
            r == old(self).messages@[old(self).read_pos as int],
            final(self).read_pos == old(self).read_pos + 1,
            final(self).messages@ == old(self).messages@,
            final(self).input@ == old(self).input@,
            final(self).wf(),
    {
        let len = self.messages.len();
        let m = self.messages[self.read_pos];
        assert(self.read_pos < len);
        self.read_pos = self.read_pos + 1;
        m
    }
}

} // verus!
