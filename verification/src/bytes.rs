//! The buffer seen as a sequence of contiguous chunks.

use crate::circbuf::CircBuf;
use vstd::prelude::*;

verus! {

impl CircBuf {
    /// Advance the buffer's read cursor over `count` bytes, which must be readable.
    pub fn advance(&mut self, count: usize)
        requires
            old(self).wf(),
            old(self)@.size() > 0,
            count <= old(self)@.len(),
        ensures
            final(self).wf(),
            final(self)@ == old(self)@.advance_read(count as int),
            final(self)@.bytes() == old(self)@.bytes().skip(count as int),
    {
        proof {
            crate::laws::law_advance_read(self@, count as int);
        }
        self.advance_read_raw(count);
    }

    /// Get the readable bytes up to the end of the underlying buffer. There are none only if
    /// there are no readable bytes at all.
    pub fn chunk(&self) -> (r: &[u8])
        requires
            self.wf(),
            self@.size() > 0,
        ensures
            r@ == self@.bytes().take(self@.bytes_split(self@.len())),
            r@.len() == 0 <==> self@.len() == 0,
            r@.is_prefix_of(self@.bytes()),
            self@.read + r@.len() <= self@.storage.len(),
            r@ == self@.bytes() || self@.read + r@.len() == self@.storage.len(),
    {
        let slices: [&[u8]; 2] = self.get_bytes();
        if slices[0].is_empty() && !slices[1].is_empty() {
            slices[1]
        } else {
            slices[0]
        }
    }

    /// Get the number of bytes that can be read.
    pub fn remaining(&self) -> (n: usize)
        requires
            self.wf(),
        ensures
            n == self@.len(),
            n == self@.bytes().len(),
    {
        self.len()
    }

    /// Put the two slices of `get_bytes` into `dst`, as far as it has places for them. Returns
    /// the number of places that were used.
    pub fn chunks_vectored<'a>(&'a self, dst: &mut [&'a [u8]]) -> (n: usize)
        requires
            self.wf(),
            self@.size() > 0,
        ensures
            n == crate::model::min(2, old(dst)@.len() as int),
            final(dst)@.len() == old(dst)@.len(),
            old(dst)@.len() >= 2 ==> n == 2 && final(dst)@[0]@ + final(dst)@[1]@ == self@.bytes(),
            old(dst)@.len() < 2 ==> n == old(dst)@.len(),
            old(dst)@.len() >= 1 ==> {
                let first = final(dst)@[0]@;
                &&& first.is_prefix_of(self@.bytes())
                &&& self@.read + first.len() <= self@.storage.len()
                &&& first == self@.bytes() || self@.read + first.len() == self@.storage.len()
            },
            n >= 1 ==> final(dst)@[0]@ == self@.bytes().take(self@.bytes_split(self@.len())),
            n >= 2 ==> final(dst)@[1]@ == self@.bytes().skip(self@.bytes_split(self@.len())),
            forall|i: int| 2 <= i < old(dst)@.len() ==> final(dst)@[i] == old(dst)@[i],
    {
        let slices: [&'a [u8]; 2] = self.get_bytes();
        let mut count: usize = 0;
        if dst.len() > 0 {
            count = count + 1;
            dst[0] = slices[0];
        }
        if dst.len() > 1 {
            count = count + 1;
            dst[1] = slices[1];
        }
        count
    }

    /// Advance the buffer's write cursor over `count` bytes, for which there must be room.
    pub fn advance_mut(&mut self, count: usize)
        requires
            old(self).wf(),
            old(self)@.size() > 0,
            count <= old(self)@.avail(),
        ensures
            final(self).wf(),
            final(self)@ == old(self)@.advance_write(count as int),
            final(self)@.bytes() == old(self)@.bytes() + old(self)@.ahead(count as nat),
            final(self)@.bytes().len() == old(self)@.bytes().len() + count,
    {
        proof {
            crate::laws::law_advance_write(self@, count as int);
        }
        self.advance_write_raw(count);
    }

    /// Get the bytes with room up to the end of the underlying buffer. There are none only if
    /// there is no room at all.
    ///
    /// What is stored through the slice, which keeps its length, leaves the readable bytes as
    /// they are and lies where the write cursor passes next.
    pub fn chunk_mut(&mut self) -> (r: &mut [u8])
        requires
            old(self).wf(),
            old(self)@.size() > 0,
        ensures
            r@ == old(self)@.storage.subrange(
                old(self)@.write,
                old(self)@.write + old(self)@.avail_split(old(self)@.avail()),
            ),
            r@.len() == 0 <==> old(self)@.avail() == 0,
            r@.len() + old(self)@.bytes().len() < old(self)@.storage.len(),
            r@.len() + old(self)@.bytes().len() + 1 == old(self)@.storage.len() || old(self)@.write
                + r@.len() == old(self)@.storage.len(),
            final(r)@.len() == r@.len() ==> {
                &&& final(self).wf()
                &&& final(self)@ == old(self)@.fill(final(r)@)
                &&& final(self)@.bytes() == old(self)@.bytes()
            },
    {
        let avail: usize = self.avail();
        let (left, right) = self.avail_slices(avail);
        if left.is_empty() && !right.is_empty() {
            right
        } else {
            left
        }
    }

    /// Get the number of bytes that can be written.
    pub fn remaining_mut(&self) -> (n: usize)
        requires
            self.wf(),
            self@.size() > 0,
        ensures
            n == self@.avail(),
            n + self@.bytes().len() + 1 == self@.storage.len(),
    {
        self.avail()
    }
}

} // verus!
