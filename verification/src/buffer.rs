//! The byte buffer that holds an attribute's payload.

use vstd::prelude::*;

verus! {

/// An owned, growable sequence of bytes with no type information of its own.
///
/// Its view is the sequence of bytes it holds, in order.
#[derive(Debug)]
pub struct Buffer {
    bytes: Vec<u8>,
}

impl View for Buffer {
    type V = Seq<u8>;

    closed spec fn view(&self) -> Seq<u8> {
        self.bytes@
    }
}

impl Buffer {
    /// A buffer that holds no bytes.
    pub fn new() -> (buf: Buffer)
        ensures
            buf@ == Seq::<u8>::empty(),
    {
        Buffer { bytes: Vec::new() }
    }

    /// A buffer that holds a copy of `bytes`.
    pub fn from_slice(bytes: &[u8]) -> (buf: Buffer)
        ensures
            buf@ == bytes@,
    {
        let mut buf = Buffer::new();
        buf.extend_from_slice(bytes);
        buf
    }

    /// The number of bytes held.
    pub fn len(&self) -> (n: usize)
        ensures
            n == self@.len(),
    {
        self.bytes.len()
    }

    /// Whether no byte is held.
    pub fn is_empty(&self) -> (b: bool)
        ensures
            b == (self@.len() == 0),
    {
        self.bytes.len() == 0
    }

    /// The bytes held, as a slice.
    pub fn as_slice(&self) -> (s: &[u8])
        ensures
            s@ == self@,
    {
        self.bytes.as_slice()
    }

    /// Appends one byte.
    pub fn push(&mut self, byte: u8)
        ensures
            final(self)@ == old(self)@.push(byte),
    {
        self.bytes.push(byte);
    }

    /// Appends a copy of `bytes`.
    pub fn extend_from_slice(&mut self, bytes: &[u8])
        ensures
            final(self)@ == old(self)@ + bytes@,
    {
        self.bytes.extend_from_slice(bytes);
    }
}

impl Clone for Buffer {
    /// A second buffer with the same bytes, sharing nothing with the first.
    fn clone(&self) -> (buf: Buffer)
        ensures
            buf@ == self@,
    {
        Buffer { bytes: self.bytes.clone() }
    }
}

} // verus!
