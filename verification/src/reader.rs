//! Forward-only byte cursor with one-step lookahead over the input held in
//! memory, and an end-of-input flag.
use vstd::prelude::*;

verus! {

pub struct ByteReader {
    pub input: Vec<u8>,
    pub buf_count: usize,
    pub flag: bool,
}

impl ByteReader {
    /// The cursor never passes the end, and `flag` holds exactly while
    /// bytes remain.
    pub open spec fn wf(self) -> bool {
        &&& self.buf_count <= self.input@.len()
        &&& self.flag <==> self.buf_count < self.input@.len()
    }

    pub fn new(input: Vec<u8>) -> (r: Self)
        ensures
            r.wf(),
            r.input@ == input@,
            r.buf_count == 0,
    {
        let has = input.len() > 0;
        ByteReader { input, buf_count: 0, flag: has }
    }

    /// The byte at the cursor, without advancing.
    pub fn seek_byte(&self) -> (r: u8)
        requires
            self.wf(),
            self.flag,
        ensures
            r == self.input@[self.buf_count as int],
    {
        self.input[self.buf_count]
    }

    /// Advances the cursor; clears `flag` when the input is exhausted.
    pub fn next_byte(&mut self)
        requires
            old(self).wf(),
            old(self).flag,
        ensures
            final(self).wf(),
            final(self).input@ == old(self).input@,
            final(self).buf_count == old(self).buf_count + 1,
    {
        let n = self.input.len();
        self.buf_count = self.buf_count + 1;
        self.flag = self.buf_count < n;
    }

    /// The byte at the cursor, advancing past it.
    pub fn get_byte(&mut self) -> (r: u8)
        requires
            old(self).wf(),
            old(self).flag,
        ensures
            final(self).wf(),
            final(self).input@ == old(self).input@,
            final(self).buf_count == old(self).buf_count + 1,
            r == old(self).input@[old(self).buf_count as int],
    {
        let buffer = self.input[self.buf_count];
        self.next_byte();
        buffer
    }
}

} // verus!
