//! The circular buffer.

use crate::error::CircBufError;
use crate::model::Ring;
use vstd::prelude::*;

verus! {

/// Default size of the circular buffer is 1 page
pub const DEFAULT_CAPACITY: usize = 4096;

/// Double the size of the buffer by default when growing it
pub const DEFAULT_SIZE_MULTIPLIER: usize = 2;

/// Circular Buffer
///
/// A growable circular buffer for use with bytes.
#[derive(Debug)]
pub struct CircBuf {
    buf: Vec<u8>,
    write_cursor: usize,
    read_cursor: usize,
}

impl View for CircBuf {
    type V = Ring;

    closed spec fn view(&self) -> Ring {
        Ring {
            storage: self.buf@,
            read: self.read_cursor as int,
            write: self.write_cursor as int,
        }
    }
}

/// Copies `num` bytes of `src`, from `from` on, over those of `dest` from `to` on.
fn copy_bytes(src: &[u8], from: usize, dest: &mut [u8], to: usize, num: usize)
    requires
        from + num <= src@.len(),
        to + num <= old(dest)@.len(),
    ensures
        final(dest)@ == old(dest)@.take(to as int) + src@.subrange(from as int, from + num)
            + old(dest)@.skip(to + num),
{
    let mut i: usize = 0;
    while i < num
        invariant
            i <= num,
            from + num <= src.len(),
            to + num <= dest.len(),
            dest@.len() == old(dest)@.len(),
            forall|j: int|
                0 <= j < dest@.len() ==> #[trigger] dest@[j] == if to <= j < to + i {
                    src@[from + (j - to)]
                } else {
                    old(dest)@[j]
                },
        decreases num - i,
    {
        dest[to + i] = src[from + i];
        i = i + 1;
    }
    assert(dest@ =~= old(dest)@.take(to as int) + src@.subrange(from as int, from + num) + old(
        dest,
    )@.skip(to + num));
}

impl Default for CircBuf {
    /// Create a CircBuf that has no storage.
    fn default() -> (c: Self)
        ensures
            c.wf(),
            c@ == Ring::empty(0),
            c@.storage.len() == 0,
            c@.bytes() == Seq::<u8>::empty(),
    {
        let c = CircBuf { buf: Vec::new(), write_cursor: 0, read_cursor: 0 };
        assert(c@.storage =~= crate::model::zeros(0));
        c
    }
}

impl CircBuf {
    /// What every buffer keeps.
    pub open spec fn wf(&self) -> bool {
        self@.wf()
    }

    /// Create a new CircBuf. The default size of the buffer is `DEFAULT_CAPACITY` bytes.
    pub fn new() -> (c: Self)
        ensures
            c.wf(),
            c@ == Ring::empty(DEFAULT_CAPACITY as nat),
            c@.storage.len() == 4096,
            c@.bytes() == Seq::<u8>::empty(),
    {
        proof {
            reveal_with_fuel(vstd::arithmetic::power2::is_pow2, 13);
        }
        let c = CircBuf { buf: vec![0;DEFAULT_CAPACITY], write_cursor: 0, read_cursor: 0 };
        assert(c@.storage =~= crate::model::zeros(DEFAULT_CAPACITY as nat));
        c
    }

    /// Create a new CircBuf with a size of `cap` bytes. The capacity will be rounded up
    /// to the nearest power of two greater than or equal to `cap`. If the nearest power
    /// of two overflows `usize`, return `CircBufError::Overflow`, else return the buffer.
    ///
    /// The one power of two that fits in a `usize` but is more bytes than can be allocated
    /// must not come out of the rounding.
    pub fn with_capacity(cap: usize) -> (r: Result<Self, CircBufError>)
        requires
            cap <= crate::power::max_storage() || cap > 2 * crate::power::max_storage(),
        ensures
            match r {
                Ok(c) => {
                    &&& crate::power::next_power_of_two(cap as nat) <= usize::MAX
                    &&& c.wf()
                    &&& c@ == Ring::empty(crate::power::next_power_of_two(cap as nat))
                    &&& c@.bytes() == Seq::<u8>::empty()
                    &&& vstd::arithmetic::power2::is_pow2(c@.storage.len() as int)
                    &&& cap <= c@.storage.len()
                    &&& cap > 1 ==> c@.storage.len() < 2 * cap
                    &&& cap <= 1 ==> c@.storage.len() == 1
                },
                Err(e) => {
                    &&& crate::power::next_power_of_two(cap as nat) > usize::MAX
                    &&& cap > isize::MAX + 1
                    &&& e == CircBufError::Overflow
                },
            },
    {
        proof {
            crate::power::law_max_storage();
            crate::power::law_next_power_of_two_range(cap as nat);
            crate::power::law_next_power_of_two_is_least(cap as nat);
            crate::power::law_next_power_of_two_is_near(cap as nat);
        }
        let capacity: usize = match crate::power::checked_next_power_of_two(cap) {
            Some(capacity) => capacity,
            None => return Err(CircBufError::Overflow),
        };
        let c = CircBuf { buf: vec![0;capacity], write_cursor: 0, read_cursor: 0 };
        assert(c@.storage =~= crate::model::zeros(capacity as nat));
        Ok(c)
    }

    /// Get the capacity of the buffer. This value is equal to one less than the length
    /// of the underlying buffer because we cannot let the write cursor ever circle
    /// back to being equal with the read cursor.
    pub fn cap(&self) -> (n: usize)
        requires
            self.wf(),
            self@.size() > 0,
        ensures
            n == self@.cap(),
            n + 1 == self@.storage.len(),
    {
        self.buf.len() - 1
    }

    /// Get the place of the next byte to be read in the underlying buffer.
    pub fn read_cursor(&self) -> (n: usize)
        ensures
            n == self@.read,
    {
        self.read_cursor
    }

    /// Get the place of the next byte to be written in the underlying buffer.
    pub(crate) fn write_cursor(&self) -> (n: usize)
        ensures
            n == self@.write,
    {
        self.write_cursor
    }

    /// Get the length of the underlying buffer, which is zero only for a default `CircBuf`.
    pub fn size(&self) -> (n: usize)
        ensures
            n == self@.size(),
    {
        self.buf.len()
    }

    /// The number of bytes from a read cursor to a write cursor that walk round `len` bytes.
    pub(crate) fn cacl_len(read_cursor: usize, write_cursor: usize, len: usize) -> (n: usize)
        requires
            write_cursor < read_cursor ==> read_cursor <= len,
        ensures
            n == if write_cursor < read_cursor {
                len - read_cursor + write_cursor
            } else {
                write_cursor - read_cursor
            },
    {
        if write_cursor < read_cursor {
            len - read_cursor + write_cursor
        } else {
            write_cursor - read_cursor
        }
    }

    /// Get the number of bytes stored in the buffer.
    pub fn len(&self) -> (n: usize)
        requires
            self.wf(),
        ensures
            n == self@.len(),
            n == self@.bytes().len(),
    {
        Self::cacl_len(self.read_cursor, self.write_cursor, self.buf.len())
    }

    /// Get the number of bytes available in the buffer.
    pub fn avail(&self) -> (n: usize)
        requires
            self.wf(),
            self@.size() > 0,
        ensures
            n == self@.avail(),
            n + self@.len() == self@.cap(),
            n + self@.bytes().len() + 1 == self@.storage.len(),
    {
        self.cap() - self.len()
    }

    /// Get a `bool` indicating whether the buffer is empty or not.
    pub fn is_empty(&self) -> (b: bool)
        requires
            self.wf(),
        ensures
            b == (self@.len() == 0),
            b == (self@.bytes().len() == 0),
    {
        self.read_cursor == self.write_cursor
    }

    /// Get a `bool` indicating whether the buffer is full or not.
    pub fn is_full(&self) -> (b: bool)
        requires
            self.wf(),
            self@.size() > 0,
        ensures
            b == (self@.len() == self@.cap()),
            b == (self@.bytes().len() + 1 == self@.storage.len()),
    {
        self.avail() == 0
    }

    /// The first place of the storage, from `from` on and before `to`, that holds `val`.
    fn position(&self, val: u8, from: usize, to: usize) -> (r: Option<usize>)
        requires
            from <= to <= self@.size(),
        ensures
            match r {
                Some(i) => {
                    &&& from <= i < to
                    &&& self@.storage[i as int] == val
                    &&& forall|j: int| from <= j < i ==> self@.storage[j] != val
                },
                None => forall|j: int| from <= j < to ==> self@.storage[j] != val,
            },
    {
        let mut i: usize = from;
        while i < to
            invariant
                from <= i <= to <= self@.size(),
                forall|j: int| from <= j < i ==> self@.storage[j] != val,
            decreases to - i,
        {
            if self.buf[i] == val {
                return Some(i);
            }
            i = i + 1;
        }
        None
    }

    /// Find the first occurrence of `val` in the buffer starting from `index`. If `val`
    /// exists in the buffer return the index of the first occurrence of `val` else return
    /// `None`.
    pub fn find_from_index(&self, val: u8, index: usize) -> (r: Option<usize>)
        requires
            self.wf(),
        ensures
            crate::model::first_from(self@.bytes(), val, index as int, r),
            match r {
                Some(i) => {
                    &&& index <= i < self@.bytes().len()
                    &&& self@.bytes()[i as int] == val
                    &&& forall|j: int| index <= j < i ==> self@.bytes()[j] != val
                },
                None => forall|j: int|
                    index <= j < self@.bytes().len() ==> self@.bytes()[j] != val,
            },
    {
        if index >= self.len() {
            return None;
        }
        if self.write_cursor < self.read_cursor {
            let size: usize = self.buf.len();
            let mut start: usize = 0;
            if self.read_cursor + index < size {
                match self.position(val, self.read_cursor + index, size) {
                    Some(i) => {
                        return Some(i - self.read_cursor);
                    },
                    None => {},
                }
            } else {
                start = index - (size - self.read_cursor);
            }
            match self.position(val, start, self.write_cursor) {
                Some(i) => Some(i + (size - self.read_cursor)),
                None => None,
            }
        } else {
            match self.position(val, self.read_cursor + index, self.write_cursor) {
                Some(i) => Some(i - self.read_cursor),
                None => None,
            }
        }
    }

    /// Find the first occurrence of `val` in the buffer. If `val` exists in the buffer
    /// return the index of the first occurrence of `val` else return `None`. A convenience
    /// method for `find_from_index` with 0 as the index.
    pub fn find(&self, val: u8) -> (r: Option<usize>)
        requires
            self.wf(),
        ensures
            crate::model::first_from(self@.bytes(), val, 0, r),
            match r {
                Some(i) => {
                    &&& i < self@.bytes().len()
                    &&& self@.bytes()[i as int] == val
                    &&& forall|j: int| 0 <= j < i ==> self@.bytes()[j] != val
                },
                None => !self@.bytes().contains(val),
            },
    {
        self.find_from_index(val, 0)
    }

    /// Grow the size of the buffer by `factor`. The size of the buffer will be rounded
    /// up to the nearest power of two that is greater than or equal to the current
    /// size of the buffer multiplied by `factor`. If the size of the buffer will overflow
    /// `usize` then `CircBufError::Overflow` will be returned else an empty tuple `()` will
    /// be returned.
    ///
    /// A `factor` of zero shrinks the buffer to its smallest size, so nothing may be in it.
    /// The one power of two that fits in a `usize` but is more bytes than can be allocated
    /// must not come out of the rounding.
    pub fn grow_with_factor(&mut self, factor: usize) -> (r: Result<(), CircBufError>)
        requires
            old(self).wf(),
            old(self)@.size() > 0,
            factor > 0 || old(self)@.len() == 0,
            old(self)@.size() * factor <= crate::power::max_storage() || old(self)@.size() * factor
                > 2 * crate::power::max_storage(),
        ensures
            final(self).wf(),
            ({
                let size = crate::power::next_power_of_two((old(self)@.size() * factor) as nat);
                match r {
                    Ok(()) => {
                        &&& size <= usize::MAX
                        &&& final(self)@ == old(self)@.moved_to(size)
                        &&& final(self)@.bytes() == old(self)@.bytes()
                        &&& final(self)@.size() == size
                        &&& vstd::arithmetic::power2::is_pow2(final(self)@.storage.len() as int)
                        &&& old(self)@.storage.len() * factor <= final(self)@.storage.len()
                        &&& old(self)@.storage.len() * factor > 1 ==> final(self)@.storage.len() < 2
                            * (old(self)@.storage.len() * factor)
                        &&& old(self)@.storage.len() * factor <= 1 ==> final(self)@.storage.len()
                            == 1
                    },
                    Err(e) => {
                        &&& size > usize::MAX
                        &&& old(self)@.storage.len() * factor > isize::MAX + 1
                        &&& e == CircBufError::Overflow
                        &&& final(self)@ == old(self)@
                    },
                }
            }),
    {
        let ghost product = self@.size() * factor;
        proof {
            if factor > 0 {
                assert(product >= self@.size()) by (nonlinear_arith)
                    requires
                        product == self@.size() * factor,
                        self@.size() >= 0,
                        factor >= 1,
                ;
            }
            crate::power::law_next_power_of_two_is_least(product as nat);
            crate::power::law_next_power_of_two_range(product as nat);
            crate::power::law_next_power_of_two_is_near(product as nat);
            crate::power::law_max_storage();
        }
        let cap: usize = match self.buf.len().checked_mul(factor) {
            Some(cap) => cap,
            None => return Err(CircBufError::Overflow),
        };
        let cap_checked: usize = match crate::power::checked_next_power_of_two(cap) {
            Some(cap) => cap,
            None => return Err(CircBufError::Overflow),
        };
        let mut new_buf: Vec<u8> = vec![0;cap_checked];
        let mut bytes_written: usize = 0;

        // copy the readable bytes from the old buffer to the new buffer
        if self.write_cursor < self.read_cursor {
            let num_to_end: usize = self.buf.len() - self.read_cursor;
            copy_bytes(
                self.buf.as_slice(),
                self.read_cursor,
                new_buf.as_mut_slice(),
                0,
                num_to_end,
            );
            bytes_written = bytes_written + num_to_end;
            copy_bytes(
                self.buf.as_slice(),
                0,
                new_buf.as_mut_slice(),
                bytes_written,
                self.write_cursor,
            );
            bytes_written = bytes_written + self.write_cursor;
        } else {
            let num_to_copy: usize = self.write_cursor - self.read_cursor;
            copy_bytes(
                self.buf.as_slice(),
                self.read_cursor,
                new_buf.as_mut_slice(),
                0,
                num_to_copy,
            );
            bytes_written = bytes_written + num_to_copy;
        }
        assert(new_buf@ =~= self@.moved_to(cap_checked as nat).storage);

        self.buf = new_buf;
        self.write_cursor = bytes_written;
        self.read_cursor = 0;
        proof {
            crate::laws::law_moved_to(old(self)@, cap_checked as nat);
        }
        Ok(())
    }

    /// Grow the size of the buffer. The buffer will be expanded by a factor of
    /// `DEFAULT_SIZE_MULTIPLIER`. If the size of the buffer will overflow `usize`
    /// then `CircBufError::Overflow` will be returned else an empty tuple `()` will
    /// be returned.
    ///
    /// A storage so large that its doubled size overflows cannot be allocated in the first
    /// place. The doubled size must be one that can.
    pub fn grow(&mut self) -> (r: Result<(), CircBufError>)
        requires
            old(self).wf(),
            old(self)@.size() > 0,
            2 * old(self)@.size() <= crate::power::max_storage(),
        ensures
            r is Ok,
            final(self).wf(),
            final(self)@ == old(self)@.moved_to((2 * old(self)@.size()) as nat),
            final(self)@.bytes() == old(self)@.bytes(),
            final(self)@.size() == 2 * old(self)@.size(),
            final(self)@.storage.len() == 2 * old(self)@.storage.len(),
    {
        proof {
            let doubled = (2 * self@.size()) as nat;
            crate::power::law_double_power(self@.size());
            crate::power::law_next_power_of_two_keeps_powers(doubled);
        }
        self.grow_with_factor(DEFAULT_SIZE_MULTIPLIER)
    }

    /// Where a read cursor that walks round `len` bytes stands after a move by `num`.
    pub(crate) fn cacl_read(read_cursor: usize, num: usize, len: usize) -> (n: usize)
        requires
            len > 0,
            read_cursor + num <= usize::MAX,
        ensures
            n == (read_cursor + num) % (len as int),
            n < len,
    {
        (read_cursor + num) % len
    }

    /// Advance the buffer's read cursor `num` bytes.
    /// # Warning
    /// The write cursor is not checked. Moving past it loses the readable bytes and makes old
    /// bytes of the storage readable again.
    pub fn advance_read_raw(&mut self, num: usize)
        requires
            old(self).wf(),
            old(self)@.size() > 0,
            old(self)@.read + num <= usize::MAX,
        ensures
            final(self).wf(),
            final(self)@ == old(self)@.advance_read(num as int),
    {
        self.read_cursor = Self::cacl_read(self.read_cursor, num, self.buf.len());
    }

    /// Advance the buffer's read cursor `num` bytes.
    pub fn advance_read(&mut self, num: usize) -> (r: Result<(), CircBufError>)
        requires
            old(self).wf(),
            old(self)@.size() > 0 || num > 0,
        ensures
            final(self).wf(),
            match r {
                Ok(()) => {
                    &&& num <= old(self)@.len()
                    &&& num <= old(self)@.bytes().len()
                    &&& final(self)@ == old(self)@.advance_read(num as int)
                    &&& final(self)@.bytes() == old(self)@.bytes().skip(num as int)
                },
                Err(e) => {
                    &&& num > old(self)@.len()
                    &&& num > old(self)@.bytes().len()
                    &&& e == CircBufError::NotEnoughData
                    &&& final(self)@ == old(self)@
                },
            },
    {
        if num > self.len() {
            Err(CircBufError::NotEnoughData)
        } else {
            proof {
                crate::laws::law_advance_read(self@, num as int);
            }
            self.advance_read_raw(num);

            Ok(())
        }
    }

    /// Advance the buffer's write cursor `num` bytes.
    /// # Warning
    /// The read cursor is not checked. Moving past it loses readable bytes.
    pub fn advance_write_raw(&mut self, num: usize)
        requires
            old(self).wf(),
            old(self)@.size() > 0,
            old(self)@.write + num <= usize::MAX,
        ensures
            final(self).wf(),
            final(self)@ == old(self)@.advance_write(num as int),
    {
        self.write_cursor = (self.write_cursor + num) % self.buf.len();
    }

    /// Advance the buffer's write cursor `num` bytes.
    pub fn advance_write(&mut self, num: usize) -> (r: Result<(), CircBufError>)
        requires
            old(self).wf(),
            old(self)@.size() > 0,
        ensures
            final(self).wf(),
            match r {
                Ok(()) => {
                    &&& num <= old(self)@.avail()
                    &&& old(self)@.bytes().len() + num < old(self)@.storage.len()
                    &&& final(self)@ == old(self)@.advance_write(num as int)
                    &&& final(self)@.bytes().len() == old(self)@.bytes().len() + num
                    &&& final(self)@.bytes() == old(self)@.bytes() + old(self)@.ahead(num as nat)
                },
                Err(e) => {
                    &&& num > old(self)@.avail()
                    &&& old(self)@.bytes().len() + num >= old(self)@.storage.len()
                    &&& e == CircBufError::NotEnoughPlace
                    &&& final(self)@ == old(self)@
                },
            },
    {
        if num > self.avail() {
            Err(CircBufError::NotEnoughPlace)
        } else {
            proof {
                crate::laws::law_advance_write(self@, num as int);
            }
            self.advance_write_raw(num);

            Ok(())
        }
    }

    /// Clear the buffer.
    pub fn clear(&mut self)
        requires
            old(self).wf(),
        ensures
            final(self).wf(),
            final(self)@ == old(self)@.clear(),
            final(self)@.storage == old(self)@.storage,
            final(self)@.bytes() == Seq::<u8>::empty(),
    {
        self.write_cursor = 0;
        self.read_cursor = 0;
    }

    /// Get the next byte to be read from the buffer without removing it from the buffer.
    /// Returns the byte if the buffer is not empty, else returns a `BufEmpty` error.
    pub fn peek(&self) -> (r: Result<u8, CircBufError>)
        requires
            self.wf(),
        ensures
            match r {
                Ok(val) => {
                    &&& self@.len() > 0
                    &&& self@.bytes().len() > 0
                    &&& val == self@.bytes()[0]
                },
                Err(e) => {
                    &&& self@.len() == 0
                    &&& self@.bytes().len() == 0
                    &&& e == CircBufError::BufEmpty
                },
            },
    {
        if self.is_empty() {
            return Err(CircBufError::BufEmpty);
        }
        Ok(self.buf[self.read_cursor])
    }

    /// Get the next byte to be read from the buffer and remove it from the buffer.
    /// Returns the byte if the buffer is not empty, else returns a `BufEmpty` error.
    pub fn get(&mut self) -> (r: Result<u8, CircBufError>)
        requires
            old(self).wf(),
        ensures
            final(self).wf(),
            match r {
                Ok(val) => {
                    &&& old(self)@.len() > 0
                    &&& old(self)@.bytes().len() > 0
                    &&& val == old(self)@.bytes()[0]
                    &&& final(self)@ == old(self)@.advance_read(1)
                    &&& final(self)@.bytes() == old(self)@.bytes().skip(1)
                },
                Err(e) => {
                    &&& old(self)@.len() == 0
                    &&& old(self)@.bytes().len() == 0
                    &&& e == CircBufError::BufEmpty
                    &&& final(self)@ == old(self)@
                },
            },
    {
        if self.is_empty() {
            return Err(CircBufError::BufEmpty);
        }
        let val: u8 = self.buf[self.read_cursor];
        proof {
            crate::laws::law_advance_read(self@, 1);
        }
        self.advance_read_raw(1);

        Ok(val)
    }

    /// Put `val` into the buffer. Returns a `BufFull` error if the buffer is full, else
    /// returns an empty tuple `()`.
    pub fn put(&mut self, val: u8) -> (r: Result<(), CircBufError>)
        requires
            old(self).wf(),
            old(self)@.size() > 0,
        ensures
            final(self).wf(),
            match r {
                Ok(()) => {
                    &&& old(self)@.avail() > 0
                    &&& old(self)@.bytes().len() + 1 < old(self)@.storage.len()
                    &&& final(self)@ == old(self)@.append(seq![val])
                    &&& final(self)@.bytes() == old(self)@.bytes().push(val)
                },
                Err(e) => {
                    &&& old(self)@.avail() == 0
                    &&& old(self)@.bytes().len() + 1 == old(self)@.storage.len()
                    &&& e == CircBufError::BufFull
                    &&& final(self)@ == old(self)@
                },
            },
    {
        if self.avail() == 0 {
            return Err(CircBufError::BufFull);
        }
        let write_cursor: usize = self.write_cursor;
        self.buf[write_cursor] = val;
        proof {
            assert(self@.storage =~= old(self)@.fill(seq![val]).storage);
            crate::laws::law_append(old(self)@, seq![val]);
            assert(old(self)@.bytes() + seq![val] =~= old(self)@.bytes().push(val));
        }
        self.advance_write_raw(1);

        Ok(())
    }

    /// The two slices of `get_avail_upto_size` as a pair.
    pub(crate) fn avail_slices(&mut self, size: usize) -> (r: (&mut [u8], &mut [u8]))
        requires
            old(self).wf(),
            old(self)@.size() > 0,
        ensures
            ({
                let total = crate::model::min(size as int, old(self)@.avail());
                let split = old(self)@.avail_split(size as int);
                &&& r.0@ == old(self)@.storage.subrange(
                    old(self)@.write,
                    old(self)@.write + split,
                )
                &&& r.1@ == old(self)@.storage.subrange(0, total - split)
            }),
            r.0@.len() + r.1@.len() + old(self)@.bytes().len() < old(self)@.storage.len(),
            r.0@.len() + r.1@.len() <= size,
            r.0@.len() + r.1@.len() == size || r.0@.len() + r.1@.len() + old(
                self,
            )@.bytes().len() + 1 == old(self)@.storage.len(),
            r.1@.len() > 0 ==> old(self)@.write + r.0@.len() == old(self)@.storage.len(),
            final(r.0)@.len() == r.0@.len() && final(r.1)@.len() == r.1@.len() ==> {
                &&& final(self).wf()
                &&& final(self)@ == old(self)@.fill(final(r.0)@ + final(r.1)@)
                &&& final(self)@.bytes() == old(self)@.bytes()
            },
    {
        let ghost before = self@;
        let avail: usize = self.avail();
        let min: usize = if avail < size {
            avail
        } else {
            size
        };
        let write_cursor: usize = self.write_cursor;
        let to_end: usize = self.buf.len() - write_cursor;
        let (front, back) = self.buf.as_mut_slice().split_at_mut(write_cursor);
        let (first, second) = if min > to_end {
            // the min available bytes wrap around the buffer, so we need two slices to access
            // the available bytes at the end and the start of the buffer
            let (second, _) = front.split_at_mut(min - to_end);
            (back, second)
        } else {
            // the min available bytes are contiguous so our second buffer will have size zero
            let (first, _) = back.split_at_mut(min);
            let (second, _) = front.split_at_mut(0);
            (first, second)
        };
        proof {
            assert forall|data: Seq<u8>|
                data.len() <= before.avail() implies #[trigger] before.fill(data).wf()
                && before.fill(data).bytes() == before.bytes() by {
                crate::laws::law_fill(before, data);
            }
        }
        (first, second)
    }

    /// Return an array that contains two mutable slices which point to the available
    /// bytes in the buffer. The combined lengths of the slices will be the minimum
    /// of `size` and `self.avail()`. If the available bytes in the buffer are contiguous
    /// then the second slice will be of size zero. Otherwise, the first slice will point
    /// to the bytes available at the end of the buffer and the second slice will point
    /// to the bytes available at the start of the buffer. The array can be used for
    /// vector IO.
    ///
    /// What is stored through the slices, which keep their lengths, leaves the readable bytes
    /// as they are and lies where the write cursor passes next.
    pub fn get_avail_upto_size(&mut self, size: usize) -> (r: [&mut [u8]; 2])
        requires
            old(self).wf(),
            old(self)@.size() > 0,
        ensures
            ({
                let total = crate::model::min(size as int, old(self)@.avail());
                let split = old(self)@.avail_split(size as int);
                &&& r[0]@ == old(self)@.storage.subrange(
                    old(self)@.write,
                    old(self)@.write + split,
                )
                &&& r[1]@ == old(self)@.storage.subrange(0, total - split)
            }),
            r[0]@.len() + r[1]@.len() + old(self)@.bytes().len() < old(self)@.storage.len(),
            r[0]@.len() + r[1]@.len() <= size,
            r[0]@.len() + r[1]@.len() == size || r[0]@.len() + r[1]@.len() + old(
                self,
            )@.bytes().len() + 1 == old(self)@.storage.len(),
            r[1]@.len() > 0 ==> old(self)@.write + r[0]@.len() == old(self)@.storage.len(),
            final(r[0])@.len() == r[0]@.len() && final(r[1])@.len() == r[1]@.len() ==> {
                &&& final(self).wf()
                &&& final(self)@ == old(self)@.fill(final(r[0])@ + final(r[1])@)
                &&& final(self)@.bytes() == old(self)@.bytes()
            },
    {
        let (first, second) = self.avail_slices(size);
        [first, second]
    }

    /// Return an array that contains two slices which point to the bytes that have been
    /// written to the buffer. The combined lengths of the slices will be the minimum
    /// of `size` and `self.len()`. If the bytes are contiguous then the second slice will be
    /// of size zero. Otherwise, the first slice will point to the bytes at the end of the
    /// buffer and the second slice will point to the bytes available at the start of the
    /// buffer.
    pub fn get_bytes_upto_size(&self, size: usize) -> (r: [&[u8]; 2])
        requires
            self.wf(),
            self@.size() > 0,
        ensures
            ({
                let total = crate::model::min(size as int, self@.len());
                let split = self@.bytes_split(size as int);
                &&& r[0]@ == self@.bytes().subrange(0, split)
                &&& r[1]@ == self@.bytes().subrange(split, total)
                &&& r[0]@ + r[1]@ == self@.bytes().take(total)
            }),
            r[0]@.len() + r[1]@.len() <= size,
            r[0]@.len() + r[1]@.len() == size || r[0]@ + r[1]@ == self@.bytes(),
            (r[0]@ + r[1]@).is_prefix_of(self@.bytes()),
            r[1]@.len() > 0 ==> self@.read + r[0]@.len() == self@.storage.len(),
    {
        let len: usize = self.len();
        let min: usize = if len < size {
            len
        } else {
            size
        };
        let to_end: usize = self.buf.len() - self.read_cursor;
        let buf: &[u8] = self.buf.as_slice();
        if min > to_end {
            // the min bytes to be read wrap around the buffer so we need two slices
            let first: &[u8] = vstd::slice::slice_subrange(buf, self.read_cursor, buf.len());
            let second: &[u8] = vstd::slice::slice_subrange(buf, 0, min - to_end);
            [first, second]
        } else {
            // the min bytes to be read are contiguous so our second buffer will be of size zero
            let first: &[u8] = vstd::slice::slice_subrange(
                buf,
                self.read_cursor,
                self.read_cursor + min,
            );
            let second: &[u8] = vstd::slice::slice_subrange(
                buf,
                self.read_cursor,
                self.read_cursor,
            );
            [first, second]
        }
    }

    /// Return an array that contains two slices which point to the bytes that are available
    /// in the buffer. A convenience method for `get_avail_upto_size` with `size` equal to
    /// `self.avail()` so all bytes available in the buffer will be returned.
    pub fn get_avail(&mut self) -> (r: [&mut [u8]; 2])
        requires
            old(self).wf(),
            old(self)@.size() > 0,
        ensures
            ({
                let split = old(self)@.avail_split(old(self)@.avail());
                &&& r[0]@ == old(self)@.storage.subrange(
                    old(self)@.write,
                    old(self)@.write + split,
                )
                &&& r[1]@ == old(self)@.storage.subrange(0, old(self)@.avail() - split)
            }),
            r[0]@.len() + r[1]@.len() + old(self)@.bytes().len() < old(self)@.storage.len(),
            r[0]@.len() + r[1]@.len() + old(self)@.bytes().len() + 1 == old(self)@.storage.len(),
            r[1]@.len() > 0 ==> old(self)@.write + r[0]@.len() == old(self)@.storage.len(),
            final(r[0])@.len() == r[0]@.len() && final(r[1])@.len() == r[1]@.len() ==> {
                &&& final(self).wf()
                &&& final(self)@ == old(self)@.fill(final(r[0])@ + final(r[1])@)
                &&& final(self)@.bytes() == old(self)@.bytes()
            },
    {
        let avail: usize = self.avail();
        self.get_avail_upto_size(avail)
    }

    /// Return an array that contains two slices which point to the bytes that have been
    /// written to the buffer. A convenience method for `get_bytes_upto_size` with `size`
    /// equal to `self.len()` so all bytes written to the buffer will be returned.
    pub fn get_bytes(&self) -> (r: [&[u8]; 2])
        requires
            self.wf(),
            self@.size() > 0,
        ensures
            ({
                let split = self@.bytes_split(self@.len());
                &&& r[0]@ == self@.bytes().subrange(0, split)
                &&& r[1]@ == self@.bytes().subrange(split, self@.len())
                &&& r[0]@ + r[1]@ == self@.bytes()
            }),
            r[1]@.len() > 0 ==> self@.read + r[0]@.len() == self@.storage.len(),
    {
        let len: usize = self.len();
        assert(self@.bytes().take(self@.len()) =~= self@.bytes());
        self.get_bytes_upto_size(len)
    }

    /// Copies to `dest` as many as fit of the `len` readable bytes that start at `cursor`.
    pub(crate) fn read_peek(&self, dest: &mut [u8], len: usize, cursor: usize) -> (n: usize)
        requires
            self.wf(),
            cursor < self@.size(),
            len == self@.len_from(cursor as int),
            old(dest)@.len() > 0,
        ensures
            n == crate::model::min(len as int, old(dest)@.len() as int),
            final(dest)@ == self@.bytes_from(cursor as int).take(n as int) + old(dest)@.skip(
                n as int,
            ),
    {
        // either we have enough data to copy or we don't
        let num_to_read: usize = if len < dest.len() {
            len
        } else {
            dest.len()
        };
        let num_to_end: usize = self.buf.len() - cursor;

        // check if we need to wrap around the buffer to read num_to_read bytes
        if num_to_read > num_to_end {
            copy_bytes(self.buf.as_slice(), cursor, dest, 0, num_to_end);
            copy_bytes(self.buf.as_slice(), 0, dest, num_to_end, num_to_read - num_to_end);
        } else {
            copy_bytes(self.buf.as_slice(), cursor, dest, 0, num_to_read);
        }
        assert(dest@ =~= self@.bytes_from(cursor as int).take(num_to_read as int) + old(dest)@.skip(
            num_to_read as int,
        ));
        num_to_read
    }

    /// Move bytes out of the buffer, from the first readable one on, until there are none left
    /// or `buf` is full. Returns the number of bytes moved. No byte can be moved into a `buf`
    /// of length zero, so none may be readable then.
    pub fn read(&mut self, buf: &mut [u8]) -> (r: Result<usize, CircBufError>)
        requires
            old(self).wf(),
            old(buf)@.len() > 0 || old(self)@.len() == 0,
        ensures
            final(self).wf(),
            ({
                let n = crate::model::min(old(self)@.len(), old(buf)@.len() as int);
                &&& r == Ok::<usize, CircBufError>(n as usize)
                &&& final(buf)@ == old(self)@.bytes().take(n) + old(buf)@.skip(n)
                &&& final(self)@ == old(self)@.advance_read(n)
                &&& final(self)@.bytes() == old(self)@.bytes().skip(n)
            }),
            r matches Ok(n) && {
                &&& n <= old(self)@.bytes().len()
                &&& n <= old(buf)@.len()
                &&& n == old(self)@.bytes().len() || n == old(buf)@.len()
                &&& final(buf)@.len() == old(buf)@.len()
                &&& final(buf)@.take(n as int) + final(self)@.bytes() == old(self)@.bytes()
                &&& final(buf)@.skip(n as int) == old(buf)@.skip(n as int)
            },
    {
        let len: usize = self.len();
        proof {
            crate::laws::law_advance_read(
                self@,
                crate::model::min(self@.len(), buf@.len() as int),
            );
        }
        if len == 0 {
            proof {
                if self@.size() > 0 {
                    crate::laws::lemma_wrap(self@, self@.read);
                }
                assert(self@.bytes().take(0) + buf@.skip(0) =~= buf@);
            }
            Ok(0)
        } else {
            let readed: usize = self.read_peek(buf, len, self.read_cursor);
            self.advance_read_raw(readed);

            Ok(readed)
        }
    }

    /// Stores the first `num` bytes of `buf` where there is room, from the write cursor on,
    /// and leaves the cursor where it is.
    fn store(&mut self, buf: &[u8], num: usize)
        requires
            old(self).wf(),
            old(self)@.size() > 0,
            num <= old(self)@.avail(),
            num <= buf@.len(),
        ensures
            final(self)@ == old(self)@.fill(buf@.take(num as int)),
    {
        let ghost data = buf@.take(num as int);
        let write_cursor: usize = self.write_cursor;
        // check if we need to wrap around the buffer to write num bytes
        let num_to_end: usize = self.buf.len() - write_cursor;
        if num <= num_to_end {
            copy_bytes(buf, 0, self.buf.as_mut_slice(), write_cursor, num);
            assert(self@.storage =~= old(self)@.fill(data).storage);
        } else {
            copy_bytes(buf, 0, self.buf.as_mut_slice(), write_cursor, num_to_end);
            copy_bytes(buf, num_to_end, self.buf.as_mut_slice(), 0, num - num_to_end);
            assert(self@.storage =~= old(self)@.fill(data).storage);
        }
    }

    /// Move bytes of `buf`, from its first on, into the buffer until there are none left or
    /// the buffer is full. Returns the number of bytes moved.
    pub fn write(&mut self, buf: &[u8]) -> (r: Result<usize, CircBufError>)
        requires
            old(self).wf(),
            old(self)@.size() > 0,
        ensures
            final(self).wf(),
            ({
                let n = crate::model::min(old(self)@.avail(), buf@.len() as int);
                &&& r == Ok::<usize, CircBufError>(n as usize)
                &&& final(self)@ == old(self)@.append(buf@.take(n))
                &&& final(self)@.bytes() == old(self)@.bytes() + buf@.take(n)
            }),
            r matches Ok(n) && {
                &&& n <= buf@.len()
                &&& n == buf@.len() || final(self)@.bytes().len() + 1 == final(self)@.storage.len()
                &&& final(self)@.bytes() == old(self)@.bytes() + buf@.take(n as int)
                &&& final(self)@.storage.len() == old(self)@.storage.len()
                &&& old(self)@.bytes().len() + n < old(self)@.storage.len()
            },
    {
        let avail: usize = self.avail();
        let num_to_write: usize = if avail < buf.len() {
            avail
        } else {
            buf.len()
        };
        proof {
            crate::laws::law_append(self@, buf@.take(num_to_write as int));
        }
        self.store(buf, num_to_write);
        self.advance_write_raw(num_to_write);

        Ok(num_to_write)
    }
}

} // verus!
