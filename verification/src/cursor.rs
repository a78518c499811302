//! The byte stream that a session reads from or writes to.

use vstd::prelude::*;

verus! {

/// Bytes in memory with a position in them.
///
/// The position may stand past the end of the bytes: a read there finds
/// nothing, and a write there fills the gap with zeros.
#[derive(Debug, PartialEq, Eq)]
pub struct Cursor {
    pub data: Vec<u8>,
    pub pos: usize,
}

impl Cursor {
    /// A cursor at the start of `data`.
    pub fn new(data: Vec<u8>) -> (c: Cursor)
        ensures
            c.data@ == data@,
            c.pos == 0,
    {
        Cursor { data, pos: 0 }
    }

    /// The absolute position.
    pub fn position(&self) -> (p: usize)
        ensures
            p == self.pos,
    {
        self.pos
    }

    /// Moves to an absolute position.
    pub fn set_position(&mut self, pos: usize)
        ensures
            final(self).pos == pos,
            final(self).data@ == old(self).data@,
    {
        self.pos = pos;
    }

    /// The bytes.
    pub fn get_ref(&self) -> (d: &Vec<u8>)
        ensures
            d@ == self.data@,
    {
        &self.data
    }

    /// Gives the bytes back.
    pub fn into_inner(self) -> (d: Vec<u8>)
        ensures
            d@ == self.data@,
    {
        self.data
    }
}

} // verus!
