//! The mathematical model that the contracts of the crate speak of: a block of storage with
//! a read cursor and a write cursor that both walk round it.

use vstd::prelude::*;

verus! {

/// The smaller of two integers.
pub open spec fn min(a: int, b: int) -> int {
    if a < b {
        a
    } else {
        b
    }
}

/// A sequence of `n` zero bytes.
pub open spec fn zeros(n: nat) -> Seq<u8> {
    Seq::new(n, |i: int| 0u8)
}

/// Whether `found` is the index of the first byte of `bytes`, from `index` on, that equals
/// `val`, or `None` where there is none.
pub open spec fn first_from(bytes: Seq<u8>, val: u8, index: int, found: Option<usize>) -> bool {
    match found {
        Some(i) => {
            &&& index <= i < bytes.len()
            &&& bytes[i as int] == val
            &&& forall|j: int| index <= j < i ==> bytes[j] != val
        },
        None => forall|j: int| index <= j < bytes.len() ==> bytes[j] != val,
    }
}

/// The state of a circular buffer.
///
/// The readable bytes start at `read` and end just before `write`, passing from the end of
/// the storage to its start where `write` is behind `read`. Equal cursors mean that nothing
/// is readable, so at least one byte of the storage is always out of use.
#[verifier::ext_equal]
pub struct Ring {
    pub storage: Seq<u8>,
    pub read: int,
    pub write: int,
}

impl Ring {
    /// What every buffer keeps: the storage can be allocated, its size is a power of two, and
    /// both cursors lie inside it. Only a buffer without storage has no such size; its cursors
    /// are zero.
    pub open spec fn wf(self) -> bool {
        if self.size() == 0 {
            self.read == 0 && self.write == 0
        } else {
            &&& self.size() <= isize::MAX
            &&& vstd::arithmetic::power2::is_pow2(self.size())
            &&& 0 <= self.read < self.size()
            &&& 0 <= self.write < self.size()
        }
    }

    /// The number of bytes of storage.
    pub open spec fn size(self) -> int {
        self.storage.len() as int
    }

    /// The number of bytes that can be readable at once.
    pub open spec fn cap(self) -> int {
        self.size() - 1
    }

    /// The number of readable bytes from the position `pos` on.
    pub open spec fn len_from(self, pos: int) -> int {
        if self.write < pos {
            self.size() - pos + self.write
        } else {
            self.write - pos
        }
    }

    /// The number of readable bytes.
    pub open spec fn len(self) -> int {
        self.len_from(self.read)
    }

    /// The number of bytes for which there is room.
    pub open spec fn avail(self) -> int {
        self.cap() - self.len()
    }

    /// The readable bytes from the position `pos` on, in the order in which they are read.
    pub open spec fn bytes_from(self, pos: int) -> Seq<u8> {
        if self.write < pos {
            self.storage.subrange(pos, self.size()) + self.storage.subrange(0, self.write)
        } else {
            self.storage.subrange(pos, self.write)
        }
    }

    /// The readable bytes, in the order in which they are read.
    pub open spec fn bytes(self) -> Seq<u8> {
        self.bytes_from(self.read)
    }

    /// The place in the storage of a position that may have run past its end.
    pub open spec fn wrap(self, pos: int) -> int {
        if self.size() == 0 {
            0
        } else {
            pos % self.size()
        }
    }

    /// The `num` bytes of storage that follow the write cursor, which are what it passes when
    /// it moves by `num`.
    pub open spec fn ahead(self, num: nat) -> Seq<u8> {
        Seq::new(num, |i: int| self.storage[self.wrap(self.write + i)])
    }

    /// The state after the read cursor has moved by `num`.
    pub open spec fn advance_read(self, num: int) -> Ring {
        Ring { read: self.wrap(self.read + num), ..self }
    }

    /// The state after the write cursor has moved by `num`.
    pub open spec fn advance_write(self, num: int) -> Ring {
        Ring { write: self.wrap(self.write + num), ..self }
    }

    /// How many bytes after the write cursor, going round, the place `i` of the storage lies.
    pub open spec fn offset(self, i: int) -> int {
        if self.write <= i {
            i - self.write
        } else {
            self.size() - self.write + i
        }
    }

    /// The state after `data` has been stored from the write cursor on, passing from the end
    /// of the storage to its start, without a move of the cursor.
    pub open spec fn fill(self, data: Seq<u8>) -> Ring {
        Ring {
            storage: Seq::new(
                self.storage.len(),
                |i: int|
                    if self.offset(i) < data.len() {
                        data[self.offset(i)]
                    } else {
                        self.storage[i]
                    },
            ),
            ..self
        }
    }

    /// The state after `data` has been stored and made readable.
    pub open spec fn append(self, data: Seq<u8>) -> Ring {
        self.fill(data).advance_write(data.len() as int)
    }

    /// The state after both cursors have gone back to the start of the storage.
    pub open spec fn clear(self) -> Ring {
        Ring { read: 0, write: 0, ..self }
    }

    /// The state after the readable bytes have moved to the start of a new storage of `size`
    /// bytes, which is zero behind them.
    pub open spec fn moved_to(self, size: nat) -> Ring {
        Ring {
            storage: self.bytes() + zeros((size - self.len()) as nat),
            read: 0,
            write: self.len(),
        }
    }

    /// How many of the first `size` readable bytes lie before the end of the storage.
    pub open spec fn bytes_split(self, size: int) -> int {
        min(min(size, self.len()), self.size() - self.read)
    }

    /// How many of the first `size` bytes with room lie before the end of the storage.
    pub open spec fn avail_split(self, size: int) -> int {
        min(min(size, self.avail()), self.size() - self.write)
    }

    /// An empty buffer over a storage of `size` zero bytes.
    pub open spec fn empty(size: nat) -> Ring {
        Ring { storage: zeros(size), read: 0, write: 0 }
    }
}

/// The state of a reader that looks at the readable bytes of `ring` and leaves them there. It
/// has looked at those before `cursor`.
#[verifier::ext_equal]
pub struct Peek {
    pub ring: Ring,
    pub cursor: int,
}

impl Peek {
    /// What every reader keeps: its cursor lies between the two cursors of the buffer.
    pub open spec fn wf(self) -> bool {
        &&& self.ring.wf()
        &&& if self.ring.size() == 0 {
            self.cursor == 0
        } else {
            0 <= self.cursor < self.ring.size()
        }
        &&& self.len() <= self.ring.len()
    }

    /// The number of bytes still to be looked at.
    pub open spec fn len(self) -> int {
        self.ring.len_from(self.cursor)
    }

    /// The bytes still to be looked at, in the order in which they are read.
    pub open spec fn bytes(self) -> Seq<u8> {
        self.ring.bytes_from(self.cursor)
    }

    /// The number of bytes that have been looked at.
    pub open spec fn count(self) -> int {
        self.ring.len() - self.len()
    }

    /// The state after the cursor has moved by `num`.
    pub open spec fn advance(self, num: int) -> Peek {
        Peek { cursor: self.ring.wrap(self.cursor + num), ..self }
    }
}

} // verus!
