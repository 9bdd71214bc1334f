//! Ordered buffers of values passed into and out of hints.
use vstd::prelude::*;

verus! {

/// Values written by a producer, read back in the same order by a consumer.
/// Each value is a run of bytes whose length the two agree on.
pub struct ValueStream {
    bytes: Vec<u8>,
    pos: usize,
}

impl ValueStream {
    /// Everything written so far.
    pub closed spec fn written(&self) -> Seq<u8> {
        self.bytes@
    }

    /// How much has been read so far.
    pub closed spec fn read_pos(&self) -> int {
        self.pos as int
    }

    pub closed spec fn wf(&self) -> bool {
        self.pos <= self.bytes@.len()
    }

    /// The values not yet read.
    pub open spec fn unread(&self) -> Seq<u8> {
        self.written().subrange(self.read_pos(), self.written().len() as int)
    }

    /// An empty stream.
    pub fn new() -> (r: ValueStream)
        ensures
            r.wf(),
            r.written().len() == 0,
            r.read_pos() == 0,
    {
        ValueStream { bytes: Vec::new(), pos: 0 }
    }

    /// How many bytes are left to read.
    pub fn remaining(&self) -> (r: usize)
        requires
            self.wf(),
        ensures
            r == self.unread().len(),
    {
        self.bytes.len() - self.pos
    }

    /// Appends a value.
    pub fn write_value(&mut self, value: &Vec<u8>)
        requires
            old(self).wf(),
        ensures
            final(self).wf(),
            final(self).written() == old(self).written() + value@,
            final(self).read_pos() == old(self).read_pos(),
    {
        let mut i: usize = 0;
        while i < value.len()
            invariant
                i <= value@.len(),
                self.pos <= self.bytes@.len(),
                self.bytes@ == old(self).bytes@ + value@.subrange(0, i as int),
                self.pos == old(self).pos,
            decreases value@.len() - i,
        {
            self.bytes.push(value[i]);
            assert(value@.subrange(0, i + 1) =~= value@.subrange(0, i as int).push(value@[i as int]));
            i = i + 1;
        }
        assert(value@.subrange(0, i as int) =~= value@);
    }

    /// Reads the next value, `n` bytes long.
    pub fn read_value(&mut self, n: usize) -> (r: Vec<u8>)
        requires
            old(self).wf(),
            n <= old(self).unread().len(),
        ensures
            final(self).wf(),
            r@ == old(self).unread().subrange(0, n as int),
            final(self).unread() == old(self).unread().subrange(n as int, old(self).unread().len() as int),
            final(self).written() == old(self).written(),
            final(self).read_pos() == old(self).read_pos() + n,
    {
        let mut r: Vec<u8> = Vec::new();
        let start = self.pos;
        let len = self.bytes.len();
        let mut i: usize = 0;
        while i < n
            invariant
                i <= n,
                len == self.bytes@.len(),
                start == old(self).pos,
                start + n <= self.bytes@.len(),
                self.bytes@ == old(self).bytes@,
                self.pos == start,
                r@ == self.bytes@.subrange(start as int, start + i),
            decreases n - i,
        {
            r.push(self.bytes[start + i]);
            assert(self.bytes@.subrange(start as int, start + i + 1) =~= self.bytes@.subrange(
                start as int,
                start + i,
            ).push(self.bytes@[start + i]));
            i = i + 1;
        }
        self.pos = start + n;
        assert(r@ =~= old(self).unread().subrange(0, n as int));
        assert(self.unread() =~= old(self).unread().subrange(n as int, old(self).unread().len() as int));
        r
    }
}

} // verus!
