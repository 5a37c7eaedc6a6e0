//! An owned byte buffer with an explicit read position.
use vstd::prelude::*;

verus! {

/// Value of the two big-endian bytes of `s` at `p`.
pub open spec fn be_u16_at(s: Seq<u8>, p: int) -> nat {
    (s[p] as nat) * 256 + (s[p + 1] as nat)
}

/// Value of the four big-endian bytes of `s` at `p`.
pub open spec fn be_u32_at(s: Seq<u8>, p: int) -> nat {
    (s[p] as nat) * 16777216 + (s[p + 1] as nat) * 65536 + (s[p + 2] as nat) * 256 + (s[p + 3] as nat)
}

/// Big-endian bytes of a 16-bit integer.
pub open spec fn u16_be(x: u16) -> Seq<u8> {
    seq![(x / 256) as u8, (x % 256) as u8]
}

/// Big-endian bytes of a 32-bit integer.
pub open spec fn u32_be(x: u32) -> Seq<u8> {
    seq![
        (x / 16777216) as u8,
        ((x / 65536) % 256) as u8,
        ((x / 256) % 256) as u8,
        (x % 256) as u8,
    ]
}

/// Big-endian bytes of a 64-bit integer.
pub open spec fn u64_be(x: u64) -> Seq<u8> {
    u32_be((x / 4294967296) as u32) + u32_be((x % 4294967296) as u32)
}

/// Bytes read from a buffer, front to back, without taking them out of it.
pub struct ByteCursor {
    data: Vec<u8>,
    position: usize,
}

impl View for ByteCursor {
    type V = (Seq<u8>, nat);

    closed spec fn view(&self) -> (Seq<u8>, nat) {
        (self.data@, self.position as nat)
    }
}

impl ByteCursor {
    /// The buffered bytes.
    pub open spec fn bytes(&self) -> Seq<u8> {
        self@.0
    }

    /// The read position.
    pub open spec fn pos(&self) -> nat {
        self@.1
    }

    /// Bytes left to read.
    pub open spec fn rest(&self) -> nat {
        (self.bytes().len() - self.pos()) as nat
    }

    pub open spec fn wf(&self) -> bool {
        self.pos() <= self.bytes().len()
    }

    /// A cursor at the start of `data`.
    pub fn new(data: Vec<u8>) -> (r: ByteCursor)
        ensures
            r.wf(),
            r.bytes() == data@,
            r.pos() == 0,
    {
        ByteCursor { data, position: 0 }
    }

    pub fn position(&self) -> (r: u64)
        requires
            self.wf(),
        ensures
            r == self.pos(),
    {
        self.position as u64
    }

    pub fn remaining(&self) -> (r: usize)
        requires
            self.wf(),
        ensures
            r == self.rest(),
            self.pos() <= self.bytes().len(),
    {
        self.data.len() - self.position
    }

    /// The byte `offset` places after the read position, which stays put.
    pub fn peek(&self, offset: usize) -> (r: u8)
        requires
            self.wf(),
            offset < self.rest(),
        ensures
            r == self.bytes()[self.pos() + offset],
    {
        let len = self.data.len();
        assert(self.position + offset < len);
        self.data[self.position + offset]
    }

    /// Moves the read position `n` bytes on.
    pub fn advance(&mut self, n: usize)
        requires
            old(self).wf(),
            n <= old(self).rest(),
        ensures
            final(self).wf(),
            final(self).bytes() == old(self).bytes(),
            final(self).pos() == old(self).pos() + n,
    {
        let len = self.data.len();
        assert(self.position + n <= len);
        self.position = self.position + n;
    }

    pub fn get_u8(&mut self) -> (r: u8)
        requires
            old(self).wf(),
            1 <= old(self).rest(),
        ensures
            final(self).wf(),
            final(self).bytes() == old(self).bytes(),
            final(self).pos() == old(self).pos() + 1,
            r == old(self).bytes()[old(self).pos() as int],
    {
        let len = self.data.len();
        assert(self.position + 1 <= len);
        let b = self.data[self.position];
        self.position = self.position + 1;
        b
    }

    /// Reads a big-endian 16-bit integer.
    pub fn get_u16(&mut self) -> (r: u16)
        requires
            old(self).wf(),
            2 <= old(self).rest(),
        ensures
            final(self).wf(),
            final(self).bytes() == old(self).bytes(),
            final(self).pos() == old(self).pos() + 2,
            r == be_u16_at(old(self).bytes(), old(self).pos() as int),
    {
        let hi = self.get_u8() as u16;
        let lo = self.get_u8() as u16;
        hi * 256 + lo
    }

    /// Reads a big-endian 32-bit integer.
    pub fn get_u32(&mut self) -> (r: u32)
        requires
            old(self).wf(),
            4 <= old(self).rest(),
        ensures
            final(self).wf(),
            final(self).bytes() == old(self).bytes(),
            final(self).pos() == old(self).pos() + 4,
            r == be_u32_at(old(self).bytes(), old(self).pos() as int),
    {
        let b0 = self.get_u8() as u32;
        let b1 = self.get_u8() as u32;
        let b2 = self.get_u8() as u32;
        let b3 = self.get_u8() as u32;
        b0 * 16777216 + b1 * 65536 + b2 * 256 + b3
    }

    /// Copies the next `n` bytes out and moves past them.
    pub fn copy_to_bytes(&mut self, n: usize) -> (r: Vec<u8>)
        requires
            old(self).wf(),
            n <= old(self).rest(),
        ensures
            final(self).wf(),
            final(self).bytes() == old(self).bytes(),
            final(self).pos() == old(self).pos() + n,
            r@ == old(self).bytes().subrange(old(self).pos() as int, old(self).pos() + n),
    {
        let start = self.position;
        let mut out: Vec<u8> = Vec::with_capacity(n);
        let mut i: usize = 0;
        while i < n
            invariant
                i <= n,
                start + n <= self.data.len(),
                out@ == self.data@.subrange(start as int, start + i),
            decreases n - i,
        {
            out.push(self.data[start + i]);
            i = i + 1;
            assert(out@ =~= self.data@.subrange(start as int, start + i));
        }
        self.position = start + n;
        out
    }
}

} // verus!

verus! {

/// Appends `bytes` to `out`.
pub fn extend_bytes(out: &mut Vec<u8>, bytes: &[u8])
    ensures
        final(out)@ == old(out)@ + bytes@,
{
    let mut i: usize = 0;
    while i < bytes.len()
        invariant
            i <= bytes@.len(),
            out@ == old(out)@ + bytes@.subrange(0, i as int),
        decreases bytes@.len() - i,
    {
        out.push(bytes[i]);
        i = i + 1;
        assert(out@ =~= old(out)@ + bytes@.subrange(0, i as int));
    }
    assert(bytes@.subrange(0, bytes@.len() as int) =~= bytes@);
}

} // verus!
