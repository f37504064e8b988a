//! A read position over a borrowed byte slice.

use vstd::prelude::*;

verus! {

/// A position within a borrowed byte slice, advanced by the `get_*` readers.
///
/// As with a standard I/O cursor, the position may lie past the end of the
/// data, in which case nothing remains to be read.
pub struct Cursor<'a> {
    data: &'a [u8],
    pos: usize,
}

impl<'a> Cursor<'a> {
    /// The bytes the cursor reads from.
    pub closed spec fn data(&self) -> Seq<u8> {
        self.data@
    }

    /// The current read position.
    pub closed spec fn pos(&self) -> nat {
        self.pos as nat
    }

    /// How many bytes are left to read from the current position.
    pub open spec fn remaining_spec(&self) -> nat {
        if self.pos() <= self.data().len() {
            (self.data().len() - self.pos()) as nat
        } else {
            0
        }
    }

    pub fn new(data: &'a [u8]) -> (r: Cursor<'a>)
        ensures
            r.data() == data@,
            r.pos() == 0,
    {
        Cursor { data, pos: 0 }
    }

    pub fn get_ref(&self) -> (r: &'a [u8])
        ensures
            r@ == self.data(),
    {
        self.data
    }

    pub fn position(&self) -> (r: usize)
        ensures
            r == self.pos(),
    {
        self.pos
    }

    pub fn set_position(&mut self, pos: usize)
        ensures
            final(self).data() == old(self).data(),
            final(self).pos() == pos,
    {
        self.pos = pos;
    }

    pub fn remaining(&self) -> (r: usize)
        ensures
            r == self.remaining_spec(),
    {
        if self.pos <= self.data.len() {
            self.data.len() - self.pos
        } else {
            0
        }
    }

    pub fn has_remaining(&self) -> (r: bool)
        ensures
            r == (self.remaining_spec() > 0),
    {
        self.remaining() > 0
    }

    /// Reads the byte at the current position and steps past it.
    pub fn get_u8(&mut self) -> (r: u8)
        requires
            old(self).remaining_spec() >= 1,
        ensures
            r == old(self).data()[old(self).pos() as int],
            final(self).data() == old(self).data(),
            final(self).pos() == old(self).pos() + 1,
    {
        let b = self.data[self.pos];
        self.pos = self.pos + 1;
        b
    }

    /// Reads four bytes at the current position as a big-endian integer and
    /// steps past them.
    pub fn get_u32(&mut self) -> (r: u32)
        requires
            old(self).remaining_spec() >= 4,
        ensures
            r == be_u32(old(self).data().subrange(old(self).pos() as int, old(self).pos() + 4int)),
            final(self).data() == old(self).data(),
            final(self).pos() == old(self).pos() + 4,
    {
        let p = self.pos;
        let r = ((self.data[p] as u32) << 24) | ((self.data[p + 1] as u32) << 16) | ((
        self.data[p + 2] as u32) << 8) | (self.data[p + 3] as u32);
        self.pos = p + 4;
        r
    }
}

/// The integer that four bytes spell, most significant byte first.
pub open spec fn be_u32(b: Seq<u8>) -> u32 {
    ((b[0] as u32) << 24) | ((b[1] as u32) << 16) | ((b[2] as u32) << 8) | (b[3] as u32)
}

} // verus!
