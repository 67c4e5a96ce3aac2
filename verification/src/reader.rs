//! A reader that leaves the bytes it reads in the buffer.

use crate::circbuf::CircBuf;
use crate::error::CircBufError;
use crate::model::Peek;
use vstd::prelude::*;

verus! {

/// Reads the bytes of a `CircBuf` without advancing its read cursor.
pub struct CircBufPeekReader<'a> {
    inner: &'a CircBuf,
    peek_cursor: usize,
}

impl<'a> View for CircBufPeekReader<'a> {
    type V = Peek;

    closed spec fn view(&self) -> Peek {
        Peek { ring: self.inner@, cursor: self.peek_cursor as int }
    }
}

impl CircBuf {
    /// Return a reader that doesn't advance the read cursor.
    pub fn reader_peek(&self) -> (reader: CircBufPeekReader<'_>)
        requires
            self.wf(),
        ensures
            reader.wf(),
            reader@ == (Peek { ring: self@, cursor: self@.read }),
            reader@.bytes() == self@.bytes(),
            reader@.count() == 0,
    {
        CircBufPeekReader { inner: self, peek_cursor: self.read_cursor() }
    }
}

impl<'a> CircBufPeekReader<'a> {
    /// What every reader keeps.
    pub open spec fn wf(&self) -> bool {
        self@.wf()
    }

    /// Return the remaining number of bytes to peek
    pub fn len(&self) -> (n: usize)
        requires
            self.wf(),
        ensures
            n == self@.len(),
            n == self@.bytes().len(),
    {
        CircBuf::cacl_len(self.peek_cursor, self.inner.write_cursor(), self.inner.size())
    }

    /// Get a `bool` indicating whether there are no bytes left to peek.
    pub fn is_empty(&self) -> (b: bool)
        requires
            self.wf(),
        ensures
            b == (self@.len() == 0),
            b == (self@.bytes().len() == 0),
    {
        self.peek_cursor == self.inner.write_cursor()
    }

    /// Reset the peek cursor to the original read cursor of the inner `CircBuf`
    pub fn reset(&mut self)
        requires
            old(self).wf(),
        ensures
            final(self).wf(),
            final(self)@ == (Peek { ring: old(self)@.ring, cursor: old(self)@.ring.read }),
            final(self)@.bytes() == old(self)@.ring.bytes(),
            final(self)@.count() == 0,
    {
        self.peek_cursor = self.inner.read_cursor();
    }

    /// Return the number of bytes currently peeked. Useful to use for `CircBuf::advance_read`.
    pub fn count_peek(&self) -> (n: usize)
        requires
            self.wf(),
        ensures
            n == self@.count(),
            n + self@.len() == self@.ring.len(),
            n + self@.bytes().len() == self@.ring.bytes().len(),
    {
        self.inner.len() - self.len()
    }

    /// Copy bytes of the buffer, from the first that was not copied yet on, until there are
    /// none left or `buf` is full. Returns the number of bytes copied. No byte can be copied
    /// into a `buf` of length zero, so none may be left then.
    pub fn read(&mut self, buf: &mut [u8]) -> (r: Result<usize, CircBufError>)
        requires
            old(self).wf(),
            old(buf)@.len() > 0 || old(self)@.len() == 0,
        ensures
            final(self).wf(),
            ({
                let n = crate::model::min(old(self)@.len(), old(buf)@.len() as int);
                &&& r == Ok::<usize, CircBufError>(n as usize)
                &&& final(buf)@ == old(self)@.bytes().take(n) + old(buf)@.skip(n)
                &&& final(self)@ == old(self)@.advance(n)
                &&& final(self)@.bytes() == old(self)@.bytes().skip(n)
                &&& final(self)@.count() == old(self)@.count() + n
            }),
            final(self)@.ring == old(self)@.ring,
            r matches Ok(n) && {
                &&& n <= old(self)@.bytes().len()
                &&& n <= old(buf)@.len()
                &&& n == old(self)@.bytes().len() || n == old(buf)@.len()
                &&& final(buf)@.len() == old(buf)@.len()
                &&& final(buf)@.take(n as int) + final(self)@.bytes() == old(self)@.bytes()
                &&& final(buf)@.skip(n as int) == old(buf)@.skip(n as int)
            },
    {
        let len: usize = self.len();
        proof {
            crate::laws::law_peek_advance(
                self@,
                crate::model::min(self@.len(), buf@.len() as int),
            );
        }
        if len == 0 {
            proof {
                if self@.ring.size() > 0 {
                    crate::laws::lemma_wrap(self@.ring, self@.cursor);
                }
                assert(self@.bytes().take(0) + buf@.skip(0) =~= buf@);
            }
            Ok(0)
        } else {
            let readed: usize = self.inner.read_peek(buf, len, self.peek_cursor);
            self.peek_cursor = CircBuf::cacl_read(self.peek_cursor, readed, self.inner.size());

            Ok(readed)
        }
    }
}

} // verus!
