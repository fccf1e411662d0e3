//! A byte cursor over an input buffer.
//!
//! Decoding works on a [`Reader`], which keeps the full input immutable and
//! advances a position; serialization appends to a plain `Vec<u8>`.

use vstd::prelude::*;
use crate::elements::error::Error;

verus! {

/// Cursor over an immutable byte buffer.
pub struct Reader<'a> {
    buf: &'a [u8],
    pos: usize,
}

impl<'a> Reader<'a> {
    /// The whole input this reader walks over.
    pub closed spec fn input(&self) -> Seq<u8> {
        self.buf@
    }

    /// How many bytes have been consumed so far.
    pub closed spec fn position(&self) -> int {
        self.pos as int
    }

    /// The reader never runs past the end of its buffer.
    pub open spec fn wf(&self) -> bool {
        0 <= self.position() <= self.input().len() && self.position() <= usize::MAX
    }

    /// The bytes not yet consumed.
    pub open spec fn remaining(&self) -> Seq<u8> {
        self.input().skip(self.position())
    }

    /// New reader at the start of `buf`.
    pub fn new(buf: &'a [u8]) -> (r: Self)
        ensures
            r.wf(),
            r.input() == buf@,
            r.position() == 0,
    {
        Reader { buf, pos: 0 }
    }

    /// The number of bytes consumed so far.
    pub fn pos(&self) -> (r: usize)
        ensures
            r as int == self.position(),
    {
        self.pos
    }

    /// True if every byte has been consumed.
    pub fn is_at_end(&self) -> (r: bool)
        requires
            self.wf(),
        ensures
            r == (self.remaining().len() == 0),
    {
        self.pos == self.buf.len()
    }

    /// Read a single byte, or report end of input.
    pub fn read_u8(&mut self) -> (r: Result<u8, Error>)
        requires
            old(self).wf(),
        ensures
            final(self).wf(),
            final(self).input() == old(self).input(),
            match r {
                Ok(b) => {
                    &&& old(self).remaining().len() > 0
                    &&& b == old(self).remaining()[0]
                    &&& final(self).position() == old(self).position() + 1
                },
                Err(e) => {
                    &&& e == Error::UnexpectedEof
                    &&& old(self).remaining().len() == 0
                    &&& final(self).position() == old(self).position()
                },
            },
    {
        if self.pos < self.buf.len() {
            let b = self.buf[self.pos];
            self.pos = self.pos + 1;
            Ok(b)
        } else {
            Err(Error::UnexpectedEof)
        }
    }

    /// Read exactly `n` bytes, or report end of input.
    pub fn read_bytes(&mut self, n: usize) -> (r: Result<Vec<u8>, Error>)
        requires
            old(self).wf(),
        ensures
            final(self).wf(),
            final(self).input() == old(self).input(),
            match r {
                Ok(v) => {
                    &&& old(self).remaining().len() >= n
                    &&& v@ == old(self).remaining().take(n as int)
                    &&& final(self).position() == old(self).position() + n
                },
                Err(e) => {
                    &&& e == Error::UnexpectedEof
                    &&& old(self).remaining().len() < n
                    &&& final(self).position() == old(self).position()
                },
            },
    {
        if n > self.buf.len() - self.pos {
            return Err(Error::UnexpectedEof);
        }
        let len = self.buf.len();
        let mut v: Vec<u8> = Vec::new();
        let mut i: usize = 0;
        while i < n
            invariant
                i <= n,
                len == self.buf@.len(),
                self.pos + n <= len,
                v@ =~= self.buf@.subrange(self.pos as int, self.pos + i),
            decreases n - i,
        {
            v.push(self.buf[self.pos + i]);
            i = i + 1;
        }
        proof {
            assert(v@ =~= self.remaining().take(n as int));
        }
        self.pos = self.pos + n;
        Ok(v)
    }
}

/// Append every byte of `bytes` to `out`.
pub fn write_bytes(out: &mut Vec<u8>, bytes: &[u8])
    ensures
        final(out)@ == old(out)@ + bytes@,
{
    let mut i: usize = 0;
    while i < bytes.len()
        invariant
            i <= bytes@.len(),
            out@ =~= old(out)@ + bytes@.take(i as int),
        decreases bytes@.len() - i,
    {
        out.push(bytes[i]);
        i = i + 1;
    }
    proof {
        assert(out@ =~= old(out)@ + bytes@);
    }
}


/// A reader that advanced by the length of `a` over input that continued
/// with `a + b` now has exactly `b` left.
pub proof fn lemma_reader_advance<'a>(r0: Reader<'a>, r1: Reader<'a>, a: Seq<u8>, b: Seq<u8>)
    requires
        r0.wf(),
        r1.wf(),
        r1.input() == r0.input(),
        r0.remaining() == a + b,
        r1.position() == r0.position() + a.len(),
    ensures
        r1.remaining() == b,
{
    let input = r0.input();
    let p0 = r0.position();
    let p1 = r1.position();
    assert(r0.remaining() == input.skip(p0));
    assert(r1.remaining() == input.skip(p1));
    assert forall|i: int| 0 <= i < b.len() implies input.skip(p1)[i] == b[i] by {
        assert(input.skip(p0)[a.len() + i] == (a + b)[a.len() + i]);
    }
    assert(r1.remaining() =~= b);
}


/// How much is left to read, in terms of the position.
pub proof fn lemma_remaining_len<'a>(r: Reader<'a>)
    requires
        r.wf(),
    ensures
        r.remaining().len() == r.input().len() - r.position(),
{
    assert(r.remaining() =~= r.input().subrange(r.position(), r.input().len() as int));
}

} // verus!
