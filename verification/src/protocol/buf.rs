//! Per-direction rolling byte buffers for the stream decoders.

use vstd::prelude::*;

verus! {

/// A rolling buffer of bytes a stream parser has not yet consumed.
pub struct Buffer {
    vec: Vec<u8>,
}

/// A buffer's held bytes joined with the newly arrived ones, handed to
/// a parser in one piece.
pub struct Buf {
    data: Vec<u8>,
}

impl Buffer {
    /// The held bytes.
    pub closed spec fn view(&self) -> Seq<u8> {
        self.vec@
    }

    /// An empty buffer.
    pub fn new() -> (r: Buffer)
        ensures
            r@.len() == 0,
    {
        Buffer { vec: Vec::new() }
    }

    /// Take the held bytes joined with `more`; the buffer is left empty
    /// until `put_back` restores the unconsumed tail.
    pub fn buf(&mut self, more: &[u8]) -> (r: Buf)
        ensures
            r@ == old(self)@ + more@,
            final(self)@.len() == 0,
    {
        let mut data: Vec<u8> = Vec::new();
        core::mem::swap(&mut data, &mut self.vec);
        let mut i: usize = 0;
        while i < more.len()
            invariant
                i <= more@.len(),
                data@ == old(self)@ + more@.take(i as int),
            decreases more@.len() - i,
        {
            data.push(more[i]);
            proof {
                assert(data@ =~= old(self)@ + more@.take(i + 1));
            }
            i = i + 1;
        }
        proof {
            assert(data@ =~= old(self)@ + more@);
        }
        Buf { data }
    }

    /// Restore a buffer's unconsumed tail.
    pub fn put_back(&mut self, b: Buf)
        ensures
            final(self)@ == b@,
    {
        self.vec = b.data;
    }

    /// Drop everything held.
    pub fn clear(&mut self)
        ensures
            final(self)@.len() == 0,
    {
        self.vec.clear();
    }

    /// The number of held bytes.
    pub fn len(&self) -> (r: usize)
        ensures
            r == self@.len(),
    {
        self.vec.len()
    }

    /// Whether nothing is held.
    pub fn is_empty(&self) -> (r: bool)
        ensures
            r == (self@.len() == 0),
    {
        self.vec.is_empty()
    }
}

impl Buf {
    /// The joined bytes.
    pub closed spec fn view(&self) -> Seq<u8> {
        self.data@
    }

    /// The joined bytes, for parsing.
    pub fn bytes(&self) -> (r: &Vec<u8>)
        ensures
            r@ == self@,
    {
        &self.data
    }

    /// Keep only the last `n` bytes: what the parser did not consume.
    pub fn keep(&mut self, n: usize)
        requires
            n <= old(self)@.len(),
        ensures
            final(self)@ == old(self)@.subrange(
                old(self)@.len() - n,
                old(self)@.len() as int,
            ),
    {
        let start = self.data.len() - n;
        let mut kept: Vec<u8> = Vec::new();
        let mut i: usize = start;
        while i < self.data.len()
            invariant
                start <= i <= self.data@.len(),
                self.data@ == old(self)@,
                start == old(self)@.len() - n,
                kept@ == old(self)@.subrange(start as int, i as int),
            decreases self.data@.len() - i,
        {
            kept.push(self.data[i]);
            proof {
                assert(kept@ =~= old(self)@.subrange(start as int, i + 1));
            }
            i = i + 1;
        }
        self.data = kept;
    }
}

} // verus!
