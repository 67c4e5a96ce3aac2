//! Laws of the circular buffer, stated over the model that the contracts use.

use crate::circbuf::CircBuf;
use crate::error::CircBufError;
use crate::model::{Peek, Ring};
use crate::reader::CircBufPeekReader;
use vstd::prelude::*;

verus! {

/// A position less than two rounds away wraps by at most one subtraction.
pub proof fn lemma_wrap(r: Ring, pos: int)
    requires
        0 <= pos < 2 * r.size(),
    ensures
        r.wrap(pos) == if pos < r.size() {
            pos
        } else {
            pos - r.size()
        },
{
    if pos < r.size() {
        vstd::arithmetic::div_mod::lemma_small_mod(pos as nat, r.size() as nat);
    } else {
        vstd::arithmetic::div_mod::lemma_mod_sub_multiples_vanish(pos, r.size());
        vstd::arithmetic::div_mod::lemma_small_mod((pos - r.size()) as nat, r.size() as nat);
    }
}

/// A buffer never holds more than its capacity, and the numbers of bytes held and of bytes
/// with room add up to it.
pub proof fn law_len_and_avail(r: Ring)
    requires
        r.wf(),
        r.size() > 0,
    ensures
        r.bytes().len() == r.len(),
        0 <= r.len() <= r.cap(),
        0 <= r.avail() <= r.cap(),
        r.len() + r.avail() == r.cap(),
{
}

/// The readable bytes from a position on are those from an earlier position on, without as
/// many at the front as lie between the two.
pub proof fn lemma_bytes_from(r: Ring, pos: int, num: int)
    requires
        r.wf(),
        0 <= pos < r.size() || pos == r.size() == 0,
        0 <= num <= r.len_from(pos),
    ensures
        0 <= r.wrap(pos + num) < r.size() || r.wrap(pos + num) == r.size() == 0,
        r.len_from(r.wrap(pos + num)) == r.len_from(pos) - num,
        r.bytes_from(r.wrap(pos + num)) == r.bytes_from(pos).skip(num),
        r.bytes_from(pos).len() == r.len_from(pos),
{
    if r.size() > 0 {
        lemma_wrap(r, pos + num);
    }
    assert(r.bytes_from(r.wrap(pos + num)) =~= r.bytes_from(pos).skip(num));
}

/// Moving the read cursor over `num` readable bytes removes exactly the first `num` of them.
pub proof fn law_advance_read(r: Ring, num: int)
    requires
        r.wf(),
        0 <= num <= r.len(),
    ensures
        r.advance_read(num).wf(),
        r.advance_read(num).bytes() == r.bytes().skip(num),
        r.advance_read(num).len() == r.len() - num,
        r.advance_read(num).cap() == r.cap(),
{
    lemma_bytes_from(r, r.read, num);
}

/// Looking at `num` more bytes passes exactly the first `num` of those that were left, and
/// adds as many to those that have been looked at.
pub proof fn law_peek_advance(p: Peek, num: int)
    requires
        p.wf(),
        0 <= num <= p.len(),
    ensures
        p.advance(num).wf(),
        p.advance(num).bytes() == p.bytes().skip(num),
        p.advance(num).len() == p.len() - num,
        p.advance(num).count() == p.count() + num,
{
    lemma_bytes_from(p.ring, p.cursor, num);
}

/// Moving the write cursor over `num` bytes with room makes exactly those bytes readable,
/// behind all that were readable before.
pub proof fn law_advance_write(r: Ring, num: int)
    requires
        r.wf(),
        r.size() > 0,
        0 <= num <= r.avail(),
    ensures
        r.advance_write(num).wf(),
        r.advance_write(num).bytes() == r.bytes() + r.ahead(num as nat),
        r.advance_write(num).len() == r.len() + num,
        r.advance_write(num).cap() == r.cap(),
{
    lemma_wrap(r, r.write + num);
    let next = r.advance_write(num);
    assert forall|i: int| 0 <= i < num implies #[trigger] r.ahead(num as nat)[i]
        == next.bytes()[r.len() + i] by {
        lemma_wrap(r, r.write + i);
    }
    assert(next.bytes() =~= r.bytes() + r.ahead(num as nat));
}

/// Storing bytes where there is room leaves the readable bytes as they are, and puts the
/// stored bytes where the write cursor passes next.
pub proof fn law_fill(r: Ring, data: Seq<u8>)
    requires
        r.wf(),
        r.size() > 0,
        data.len() <= r.avail(),
    ensures
        r.fill(data).wf(),
        r.fill(data).bytes() == r.bytes(),
        r.fill(data).len() == r.len(),
        r.fill(data).avail() == r.avail(),
        r.fill(data).ahead(data.len()) == data,
{
    let next = r.fill(data);
    assert(next.bytes() =~= r.bytes());
    assert forall|i: int| 0 <= i < data.len() implies #[trigger] next.ahead(data.len())[i]
        == data[i] by {
        lemma_wrap(r, r.write + i);
        lemma_wrap(next, r.write + i);
    }
    assert(next.ahead(data.len()) =~= data);
}

/// Appended bytes become readable in order, behind all that were readable before.
pub proof fn law_append(r: Ring, data: Seq<u8>)
    requires
        r.wf(),
        r.size() > 0,
        data.len() <= r.avail(),
    ensures
        r.append(data).wf(),
        r.append(data).bytes() == r.bytes() + data,
        r.append(data).len() == r.len() + data.len(),
        r.append(data).cap() == r.cap(),
{
    law_fill(r, data);
    law_advance_write(r.fill(data), data.len() as int);
}

/// Moving the readable bytes to a storage that is larger than their number keeps them all.
pub proof fn law_moved_to(r: Ring, size: nat)
    requires
        r.wf(),
        r.len() < size <= isize::MAX,
        vstd::arithmetic::power2::is_pow2(size as int),
    ensures
        r.moved_to(size).wf(),
        r.moved_to(size).bytes() == r.bytes(),
        r.moved_to(size).len() == r.len(),
        r.moved_to(size).size() == size,
        r.moved_to(size).avail() == size - 1 - r.len(),
{
    assert(r.moved_to(size).bytes() =~= r.bytes());
}

/// First in, first out: what is appended comes out again, unchanged and in order, once all
/// that was readable before has been read.
pub proof fn law_fifo(r: Ring, data: Seq<u8>)
    requires
        r.wf(),
        r.size() > 0,
        data.len() <= r.avail(),
    ensures
        r.append(data).bytes().take(r.len()) == r.bytes(),
        r.append(data).advance_read(r.len()).bytes() == data,
{
    law_append(r, data);
    law_advance_read(r.append(data), r.len());
    assert(r.append(data).bytes().take(r.len()) =~= r.bytes());
    assert(r.append(data).bytes().skip(r.len()) =~= data);
}

/// The cursors meet exactly if the buffer is empty, and in a full buffer the write cursor
/// stands right behind the read cursor.
pub proof fn law_cursors(r: Ring)
    requires
        r.wf(),
        r.size() > 0,
    ensures
        r.read == r.write <==> r.len() == 0,
        r.wrap(r.write + 1) == r.read <==> r.avail() == 0,
{
    lemma_wrap(r, r.write + 1);
}

/// A cleared buffer is empty and keeps its capacity.
pub proof fn law_clear(r: Ring)
    requires
        r.wf(),
    ensures
        r.clear().wf(),
        r.clear().bytes() == Seq::<u8>::empty(),
        r.clear().len() == 0,
        r.clear().cap() == r.cap(),
        r.clear().avail() == r.cap(),
{
}

/// A new buffer is empty, and has room for one byte less than its size.
pub proof fn law_empty(size: nat)
    requires
        size <= isize::MAX,
        size == 0 || vstd::arithmetic::power2::is_pow2(size as int),
    ensures
        Ring::empty(size).wf(),
        Ring::empty(size).bytes() == Seq::<u8>::empty(),
        Ring::empty(size).len() == 0,
        Ring::empty(size).avail() == size - 1,
{
}

/// Two moves of the read cursor are one move by the sum, whatever is readable.
pub proof fn law_advance_read_twice(r: Ring, a: int, b: int)
    requires
        r.size() > 0,
    ensures
        r.advance_read(a).advance_read(b) == r.advance_read(a + b),
{
    vstd::arithmetic::div_mod::lemma_add_mod_noop_right(b, r.read + a, r.size());
}

/// Two moves of the write cursor are one move by the sum, whatever room there is.
pub proof fn law_advance_write_twice(r: Ring, a: int, b: int)
    requires
        r.size() > 0,
    ensures
        r.advance_write(a).advance_write(b) == r.advance_write(a + b),
{
    vstd::arithmetic::div_mod::lemma_add_mod_noop_right(b, r.write + a, r.size());
}

/// Appending in two pieces is appending both at once.
pub proof fn law_append_twice(r: Ring, a: Seq<u8>, b: Seq<u8>)
    requires
        r.wf(),
        r.size() > 0,
        a.len() + b.len() <= r.avail(),
    ensures
        r.append(a).append(b) == r.append(a + b),
{
    lemma_wrap(r, r.write + a.len());
    lemma_wrap(r.fill(a), r.write + a.len());
    law_advance_write_twice(r, a.len() as int, b.len() as int);
    assert(r.append(a).append(b).storage =~= r.append(a + b).storage);
}

/// Reading and writing do not disturb each other: the order of the two does not matter.
pub proof fn law_read_and_write_commute(r: Ring, data: Seq<u8>, num: int)
    requires
        r.wf(),
        r.size() > 0,
        data.len() <= r.avail(),
        0 <= num <= r.len(),
    ensures
        r.append(data).advance_read(num) == r.advance_read(num).append(data),
{
    assert(r.append(data).storage =~= r.advance_read(num).append(data).storage);
}

/// Where the cursors stand does not show: two buffers of one capacity with the same readable
/// bytes still have the same readable bytes after the same bytes were appended or read.
pub proof fn law_place_does_not_show(r: Ring, s: Ring, data: Seq<u8>, num: int)
    requires
        r.wf(),
        s.wf(),
        r.size() == s.size() > 0,
        r.bytes() == s.bytes(),
        data.len() <= r.avail(),
        0 <= num <= r.len(),
    ensures
        r.len() == s.len(),
        r.avail() == s.avail(),
        r.append(data).bytes() == s.append(data).bytes(),
        r.advance_read(num).bytes() == s.advance_read(num).bytes(),
{
    law_len_and_avail(r);
    law_len_and_avail(s);
    law_append(r, data);
    law_append(s, data);
    law_advance_read(r, num);
    law_advance_read(s, num);
}

/// The number of readable bytes is the distance between the cursors, modulo the size.
proof fn lemma_len_is_distance(r: Ring)
    requires
        r.wf(),
        r.size() > 0,
    ensures
        r.len() == (r.write - r.read) % r.size(),
{
    if r.write < r.read {
        vstd::arithmetic::div_mod::lemma_mod_add_multiples_vanish(r.write - r.read, r.size());
    }
    vstd::arithmetic::div_mod::lemma_small_mod(r.len() as nat, r.size() as nat);
}

/// Moving both cursors by the same amount, however large, leaves the number of readable bytes
/// as it is.
pub proof fn law_advance_both(r: Ring, num: int)
    requires
        r.wf(),
        r.size() > 0,
        0 <= num,
    ensures
        r.advance_read(num).advance_write(num).wf(),
        r.advance_read(num).advance_write(num).len() == r.len(),
{
    let next = r.advance_read(num).advance_write(num);
    vstd::arithmetic::div_mod::lemma_mod_bound(r.read + num, r.size());
    vstd::arithmetic::div_mod::lemma_mod_bound(r.write + num, r.size());
    lemma_len_is_distance(r);
    lemma_len_is_distance(next);
    vstd::arithmetic::div_mod::lemma_sub_mod_noop(r.write + num, r.read + num, r.size());
}

/// Vector IO: what is stored through the slices of available bytes is readable, as far as the
/// write cursor is then advanced, behind all that was readable before.
pub proof fn law_fill_and_advance(r: Ring, data: Seq<u8>, num: int)
    requires
        r.wf(),
        r.size() > 0,
        data.len() <= r.avail(),
        0 <= num <= data.len(),
    ensures
        r.fill(data).advance_write(num).wf(),
        r.fill(data).advance_write(num).bytes() == r.bytes() + data.take(num),
{
    law_fill(r, data);
    law_advance_write(r.fill(data), num);
    assert(r.fill(data).ahead(num as nat) =~= r.fill(data).ahead(data.len()).take(num));
}

/// The slices of available bytes together are as long as asked for, or as there is room. If
/// those bytes are contiguous, the second slice has size zero; otherwise the first one ends
/// where the storage ends.
pub proof fn law_avail_slices(r: Ring, size: int)
    requires
        r.wf(),
        r.size() > 0,
        0 <= size,
    ensures
        ({
            let total = crate::model::min(size, r.avail());
            let split = r.avail_split(size);
            &&& 0 <= split <= total
            &&& r.write + split <= r.size()
            &&& r.write + total <= r.size() ==> total - split == 0
            &&& r.write + total > r.size() ==> r.write + split == r.size()
        }),
{
}

/// The slices of readable bytes together are as long as asked for, or as there are readable
/// bytes. If those bytes are contiguous, the second slice has size zero; otherwise the first
/// one ends where the storage ends.
pub proof fn law_bytes_slices(r: Ring, size: int)
    requires
        r.wf(),
        r.size() > 0,
        0 <= size,
    ensures
        ({
            let total = crate::model::min(size, r.len());
            let split = r.bytes_split(size);
            &&& 0 <= split <= total
            &&& r.bytes().subrange(0, split) == r.storage.subrange(r.read, r.read + split)
            &&& r.bytes().subrange(split, total) == r.storage.subrange(0, total - split)
            &&& r.read + total <= r.size() ==> total - split == 0
            &&& r.read + total > r.size() ==> r.read + split == r.size()
        }),
{
    let total = crate::model::min(size, r.len());
    let split = r.bytes_split(size);
    assert(r.bytes().subrange(0, split) =~= r.storage.subrange(r.read, r.read + split));
    assert(r.bytes().subrange(split, total) =~= r.storage.subrange(0, total - split));
}

/// Two chunks are all the readable bytes: once the first one has been passed, the rest is
/// contiguous.
pub proof fn law_two_chunks(r: Ring)
    requires
        r.wf(),
        r.size() > 0,
    ensures
        ({
            let split = r.bytes_split(r.len());
            let rest = r.advance_read(split);
            &&& rest.len() == r.len() - split
            &&& rest.bytes_split(rest.len()) == rest.len()
            &&& r.bytes() == r.bytes().take(split) + rest.bytes()
        }),
{
    let split = r.bytes_split(r.len());
    law_advance_read(r, split);
    lemma_wrap(r, r.read + split);
    assert(r.bytes() =~= r.bytes().take(split) + r.bytes().skip(split));
}

/// Two chunks are all the available bytes: once the first one has been passed, the rest is
/// contiguous.
pub proof fn law_two_chunks_mut(r: Ring)
    requires
        r.wf(),
        r.size() > 0,
    ensures
        ({
            let split = r.avail_split(r.avail());
            let rest = r.advance_write(split);
            &&& rest.avail() == r.avail() - split
            &&& rest.avail_split(rest.avail()) == rest.avail()
        }),
{
    let split = r.avail_split(r.avail());
    law_advance_write(r, split);
    lemma_wrap(r, r.write + split);
}

/// Looking changes nothing, and advancing the read cursor over what has been looked at leaves
/// exactly what has not.
pub proof fn law_peek_and_advance(p: Peek)
    requires
        p.wf(),
    ensures
        0 <= p.count() <= p.ring.len(),
        p.ring.advance_read(p.count()).wf(),
        p.ring.advance_read(p.count()).bytes() == p.bytes(),
        p.ring.bytes() == p.ring.bytes().take(p.count()) + p.bytes(),
{
    law_advance_read(p.ring, p.count());
    lemma_bytes_from(p.ring, p.cursor, 0);
    lemma_bytes_from(p.ring, p.ring.read, p.count());
    if p.ring.size() > 0 {
        lemma_wrap(p.ring, p.ring.read + p.count());
    }
    assert(p.ring.bytes() =~= p.ring.bytes().take(p.count()) + p.ring.bytes().skip(p.count()));
}

/// A search has one answer.
pub proof fn law_search_is_exact(
    bytes: Seq<u8>,
    val: u8,
    index: int,
    a: Option<usize>,
    b: Option<usize>,
)
    requires
        crate::model::first_from(bytes, val, index, a),
        crate::model::first_from(bytes, val, index, b),
    ensures
        a == b,
{
}

/// A search need not start over: if `val` does not occur before `index`, searching from
/// `index` on finds what a search of all the bytes finds.
pub proof fn law_search_resumes(bytes: Seq<u8>, val: u8, index: int, found: Option<usize>)
    requires
        0 <= index,
        forall|j: int| 0 <= j < index && j < bytes.len() ==> bytes[j] != val,
        crate::model::first_from(bytes, val, index, found),
    ensures
        crate::model::first_from(bytes, val, 0, found),
{
}

/// Advancing past a separator that a search found leaves what follows it; what comes before it
/// is free of separators.
pub proof fn law_search_and_advance(r: Ring, val: u8, i: usize)
    requires
        r.wf(),
        crate::model::first_from(r.bytes(), val, 0, Some(i)),
    ensures
        !r.bytes().take(i as int).contains(val),
        r.bytes() == r.bytes().take(i as int).push(val) + r.advance_read(i + 1).bytes(),
{
    lemma_bytes_from(r, r.read, 0);
    law_advance_read(r, i + 1);
    assert(r.bytes() =~= r.bytes().take(i as int).push(val) + r.bytes().skip(i + 1));
}

/// The smaller of two integers is at most each of them, and is one of them.
pub proof fn law_min(a: int, b: int)
    ensures
        crate::model::min(a, b) <= a,
        crate::model::min(a, b) <= b,
        crate::model::min(a, b) == a || crate::model::min(a, b) == b,
{
}

/// What the buffers that the contracts admit are: those without storage and with both cursors
/// at zero, and those whose storage is a power of two of at most `isize::MAX` bytes and holds
/// both cursors.
pub proof fn law_wf(r: Ring)
    ensures
        r.storage.len() == 0 ==> (r.wf() <==> r.read == 0 && r.write == 0),
        r.storage.len() > 0 ==> (r.wf() <==> {
            &&& r.storage.len() <= isize::MAX
            &&& vstd::arithmetic::power2::is_pow2(r.storage.len() as int)
            &&& 0 <= r.read < r.storage.len()
            &&& 0 <= r.write < r.storage.len()
        }),
{
}

/// The contracts admit a buffer, or a reader, exactly if they admit its view.
pub proof fn law_wf_shows(c: CircBuf, reader: CircBufPeekReader<'_>)
    ensures
        c.wf() <==> c@.wf(),
        reader.wf() <==> reader@.wf(),
{
}

/// One byte of the storage is never in use. The readable bytes are fewer than the storage has
/// places, and walking over them from the read cursor leads to the write cursor; walking on
/// over the room leads to the place right behind the read cursor.
pub proof fn law_counts(r: Ring)
    requires
        r.wf(),
        r.storage.len() > 0,
    ensures
        r.size() == r.storage.len(),
        r.cap() == r.storage.len() - 1,
        0 <= r.len() < r.storage.len(),
        (r.read + r.len()) % (r.storage.len() as int) == r.write,
        0 <= r.avail() < r.storage.len(),
        (r.write + r.avail() + 1) % (r.storage.len() as int) == r.read,
{
    lemma_wrap(r, r.read + r.len());
    lemma_wrap(r, r.write + r.avail() + 1);
}

/// A buffer without storage holds nothing.
pub proof fn law_no_storage(r: Ring)
    requires
        r.wf(),
        r.storage.len() == 0,
    ensures
        r.size() == 0,
        r.len() == 0,
        r.bytes() == Seq::<u8>::empty(),
{
}

/// The readable byte with index `i` lies `i` places behind the read cursor, going round.
pub proof fn law_bytes_are_stored(r: Ring, i: int)
    requires
        r.wf(),
        0 <= i < r.len(),
    ensures
        r.bytes().len() == r.len(),
        r.bytes()[i] == r.storage[(r.read + i) % (r.storage.len() as int)],
{
    lemma_wrap(r, r.read + i);
}

/// Before a read cursor has moved it is where it was, and every further byte takes it to the
/// next place, or from the last place to the first. Nothing else changes.
pub proof fn law_read_cursor_steps(r: Ring, num: int)
    requires
        r.wf(),
        r.storage.len() > 0,
        0 <= num,
    ensures
        r.advance_read(0) == r,
        0 <= r.advance_read(num).read < r.storage.len(),
        r.advance_read(num + 1).read == if r.advance_read(num).read + 1 == r.storage.len() {
            0
        } else {
            r.advance_read(num).read + 1
        },
        r.advance_read(num).storage == r.storage,
        r.advance_read(num).write == r.write,
{
    lemma_wrap(r, r.read);
    vstd::arithmetic::div_mod::lemma_mod_bound(r.read + num, r.size());
    vstd::arithmetic::div_mod::lemma_add_mod_noop_right(1, r.read + num, r.size());
    lemma_wrap(r, r.advance_read(num).read + 1);
}

/// Before a write cursor has moved it is where it was, and every further byte takes it to the
/// next place, or from the last place to the first. Nothing else changes.
pub proof fn law_write_cursor_steps(r: Ring, num: int)
    requires
        r.wf(),
        r.storage.len() > 0,
        0 <= num,
    ensures
        r.advance_write(0) == r,
        0 <= r.advance_write(num).write < r.storage.len(),
        r.advance_write(num + 1).write == if r.advance_write(num).write + 1 == r.storage.len() {
            0
        } else {
            r.advance_write(num).write + 1
        },
        r.advance_write(num).storage == r.storage,
        r.advance_write(num).read == r.read,
{
    lemma_wrap(r, r.write);
    vstd::arithmetic::div_mod::lemma_mod_bound(r.write + num, r.size());
    vstd::arithmetic::div_mod::lemma_add_mod_noop_right(1, r.write + num, r.size());
    lemma_wrap(r, r.advance_write(num).write + 1);
}

/// The bytes that the write cursor passes are those stored from it on, going round.
pub proof fn law_ahead_is_stored(r: Ring, num: nat, i: int)
    requires
        r.storage.len() > 0,
        0 <= i < num,
    ensures
        r.ahead(num).len() == num,
        r.ahead(num)[i] == r.storage[(r.write + i) % (r.storage.len() as int)],
{
}

/// Bytes are stored one after the other from the write cursor on, going round. Every other
/// place of the storage, and both cursors, stay as they are.
pub proof fn law_fill_stores(r: Ring, data: Seq<u8>, i: int)
    requires
        r.wf(),
        data.len() <= r.storage.len(),
        0 <= i < r.storage.len(),
    ensures
        ({
            let place = (r.write + i) % (r.storage.len() as int);
            &&& i < data.len() ==> r.fill(data).storage[place] == data[i]
            &&& i >= data.len() ==> r.fill(data).storage[place] == r.storage[place]
        }),
        r.fill(data).storage.len() == r.storage.len(),
        r.fill(data).read == r.read,
        r.fill(data).write == r.write,
{
    lemma_wrap(r, r.write + i);
}

/// Appending stores the bytes where there is room and takes the write cursor past them. The
/// read cursor stays where it is.
pub proof fn law_append_stores(r: Ring, data: Seq<u8>)
    requires
        r.wf(),
        r.storage.len() > 0,
        data.len() <= r.avail(),
    ensures
        r.append(data).storage == r.fill(data).storage,
        r.append(data).write == (r.write + data.len()) % (r.storage.len() as int),
        r.append(data).read == r.read,
{
}

/// A cleared buffer keeps its storage, and starts at its first place.
pub proof fn law_clear_keeps_storage(r: Ring)
    ensures
        r.clear().storage == r.storage,
        r.clear().read == 0,
        r.clear().write == 0,
{
}

/// A new buffer is all zero, and starts at the first place of its storage.
pub proof fn law_empty_is_zero(size: nat)
    ensures
        Ring::empty(size).storage.len() == size,
        forall|i: int| 0 <= i < size ==> #[trigger] Ring::empty(size).storage[i] == 0,
        Ring::empty(size).read == 0,
        Ring::empty(size).write == 0,
{
}

/// In a new storage the readable bytes come first, and all behind them is zero.
pub proof fn law_moved_to_the_start(r: Ring, size: nat, i: int)
    requires
        r.wf(),
        r.len() < size,
        0 <= i < size,
    ensures
        r.moved_to(size).storage.len() == size,
        i < r.len() ==> r.moved_to(size).storage[i] == r.bytes()[i],
        i >= r.len() ==> r.moved_to(size).storage[i] == 0,
        r.moved_to(size).read == 0,
        r.moved_to(size).write == r.bytes().len(),
{
}

/// A write stops only when the buffer is full or the input is used up, and what it took is
/// readable behind all that was readable before.
pub proof fn law_write_takes_what_fits(r: Ring, data: Seq<u8>)
    requires
        r.wf(),
        r.storage.len() > 0,
    ensures
        ({
            let n = crate::model::min(r.avail(), data.len() as int);
            let next = r.append(data.take(n));
            &&& 0 <= n <= data.len()
            &&& n <= r.storage.len() - 1 - r.bytes().len()
            &&& n < data.len() ==> next.bytes().len() == r.storage.len() - 1
            &&& next.bytes().len() == r.bytes().len() + n
            &&& next.bytes().subrange(0, r.bytes().len() as int) == r.bytes()
            &&& forall|i: int|
                0 <= i < n ==> #[trigger] next.bytes()[r.bytes().len() + i] == data[i]
        }),
{
    let n = crate::model::min(r.avail(), data.len() as int);
    law_append(r, data.take(n));
    let next = r.append(data.take(n));
    assert(next.bytes().subrange(0, r.bytes().len() as int) =~= r.bytes());
}

/// A read into `room` bytes stops only when nothing is readable any more or the destination is
/// full, and what it did not hand out is still readable.
pub proof fn law_read_gives_what_fits(r: Ring, room: nat)
    requires
        r.wf(),
    ensures
        ({
            let n = crate::model::min(r.len(), room as int);
            let rest = r.advance_read(n);
            &&& 0 <= n <= r.bytes().len()
            &&& n <= room
            &&& n < room ==> rest.bytes().len() == 0
            &&& n == 0 ==> r.bytes().len() == 0 || room == 0
            &&& r.bytes().take(n) + rest.bytes() == r.bytes()
        }),
{
    let n = crate::model::min(r.len(), room as int);
    law_advance_read(r, n);
    lemma_bytes_from(r, r.read, 0);
    assert(r.bytes().take(n) + r.bytes().skip(n) =~= r.bytes());
}

/// A read by a reader that leaves the bytes in the buffer stops only when nothing is left to
/// look at or the destination is full, and what it did not hand out is still to be looked at.
pub proof fn law_peek_gives_what_fits(p: Peek, room: nat)
    requires
        p.wf(),
    ensures
        ({
            let n = crate::model::min(p.len(), room as int);
            let rest = p.advance(n);
            &&& 0 <= n <= p.bytes().len()
            &&& n <= room
            &&& n < room ==> rest.bytes().len() == 0
            &&& n == 0 ==> p.bytes().len() == 0 || room == 0
            &&& p.bytes().take(n) + rest.bytes() == p.bytes()
            &&& rest.ring == p.ring
        }),
{
    let n = crate::model::min(p.len(), room as int);
    law_peek_advance(p, n);
    lemma_bytes_from(p.ring, p.cursor, 0);
    assert(p.bytes().take(n) + p.bytes().skip(n) =~= p.bytes());
}

/// What was written into an empty buffer is what a read with enough room gives back, and the
/// buffer is empty again; only what found no room is missing.
pub proof fn law_write_then_read(r: Ring, data: Seq<u8>, room: nat)
    requires
        r.wf(),
        r.storage.len() > 0,
        r.bytes().len() == 0,
        data.len() <= room,
    ensures
        ({
            let written = r.append(data.take(crate::model::min(r.avail(), data.len() as int)));
            let n = crate::model::min(written.len(), room as int);
            &&& data.len() < r.storage.len() ==> written.bytes().take(n) == data
            &&& data.len() >= r.storage.len() ==> written.bytes().take(n) == data.take(
                r.storage.len() - 1,
            )
            &&& written.advance_read(n).bytes().len() == 0
        }),
{
    law_write_takes_what_fits(r, data);
    let n0 = crate::model::min(r.avail(), data.len() as int);
    let written = r.append(data.take(n0));
    law_append(r, data.take(n0));
    law_read_gives_what_fits(written, room);
    law_advance_read(written, crate::model::min(written.len(), room as int));
    let n = crate::model::min(written.len(), room as int);
    assert(written.bytes() =~= data.take(n0));
    assert(written.bytes().take(n) =~= data.take(n0));
    if data.len() < r.storage.len() {
        assert(data.take(n0) =~= data);
    }
}

/// What the readers are that the contracts admit: those that look at an admitted buffer from a
/// place that lies from its read cursor up to its write cursor, going round.
pub proof fn law_peek_wf(p: Peek)
    ensures
        p.wf() ==> {
            &&& p.ring.wf()
            &&& 0 <= p.count() <= p.ring.bytes().len()
            &&& p.ring.storage.len() > 0 ==> p.cursor == (p.ring.read + p.count()) % (
            p.ring.storage.len() as int)
            &&& p.ring.storage.len() == 0 ==> p.cursor == 0
        },
        forall|k: int|
            p.ring.wf() && p.ring.storage.len() > 0 && 0 <= k <= p.ring.bytes().len() && p.cursor
                == #[trigger] p.ring.wrap(p.ring.read + k) ==> p.wf() && p.count() == k,
        p.ring.wf() && p.ring.storage.len() == 0 && p.cursor == 0 ==> p.wf(),
{
    if p.wf() && p.ring.storage.len() > 0 {
        lemma_wrap(p.ring, p.ring.read + p.count());
    }
    assert forall|k: int|
        p.ring.wf() && p.ring.storage.len() > 0 && 0 <= k <= p.ring.bytes().len() && p.cursor
            == #[trigger] p.ring.wrap(p.ring.read + k) implies p.wf() && p.count() == k by {
        lemma_wrap(p.ring, p.ring.read + k);
    }
}

/// A reader has still to look at those readable bytes that it has not counted.
pub proof fn law_peek_is_the_rest(p: Peek)
    requires
        p.wf(),
    ensures
        p.bytes() == p.ring.bytes().skip(p.count()),
        p.len() == p.bytes().len(),
        p.count() + p.bytes().len() == p.ring.bytes().len(),
{
    lemma_bytes_from(p.ring, p.ring.read, p.count());
    lemma_bytes_from(p.ring, p.cursor, 0);
    if p.ring.size() > 0 {
        lemma_wrap(p.ring, p.ring.read + p.count());
    }
}

/// A search finds an index exactly if it is not before the one to start from, the byte there
/// is the one searched for, and no byte from the start up to it is.
pub proof fn law_search_finds_the_first(bytes: Seq<u8>, val: u8, index: int, i: usize)
    requires
        0 <= index,
    ensures
        crate::model::first_from(bytes, val, index, Some(i)) <==> {
            &&& index <= i < bytes.len()
            &&& bytes[i as int] == val
            &&& !bytes.subrange(index, i as int).contains(val)
        },
{
    if index <= i < bytes.len() {
        let before = bytes.subrange(index, i as int);
        assert forall|j: int| index <= j < i implies bytes[j] == before[j - index] by {}
        if !before.contains(val) {
            assert forall|j: int| index <= j < i implies bytes[j] != val by {
                assert(before[j - index] == bytes[j]);
            }
        }
    }
}

/// A search finds nothing exactly if there is nothing to find from the start on, whatever lies
/// before it.
pub proof fn law_search_misses_nothing(bytes: Seq<u8>, val: u8, index: int)
    requires
        0 <= index,
    ensures
        index <= bytes.len() ==> (crate::model::first_from(bytes, val, index, None)
            <==> !bytes.skip(index).contains(val)),
        index > bytes.len() ==> crate::model::first_from(bytes, val, index, None),
        index == 0 ==> (crate::model::first_from(bytes, val, index, None) <==> !bytes.contains(
            val,
        )),
{
    if index <= bytes.len() {
        let rest = bytes.skip(index);
        if !rest.contains(val) {
            assert forall|j: int| index <= j < bytes.len() implies bytes[j] != val by {
                assert(rest[j - index] == bytes[j]);
            }
        }
    }
}

/// Searching from an index on is searching all that is left once as many bytes have been read:
/// the answers differ by the index.
pub proof fn law_search_after_advance(r: Ring, val: u8, index: int, i: usize)
    requires
        r.wf(),
        0 <= index <= r.bytes().len(),
        index <= i,
    ensures
        crate::model::first_from(r.bytes(), val, index, Some(i)) <==> crate::model::first_from(
            r.advance_read(index).bytes(),
            val,
            0,
            Some((i - index) as usize),
        ),
        crate::model::first_from(r.bytes(), val, index, None) <==> crate::model::first_from(
            r.advance_read(index).bytes(),
            val,
            0,
            None,
        ),
{
    lemma_bytes_from(r, r.read, 0);
    law_advance_read(r, index);
    let rest = r.advance_read(index).bytes();
    assert(rest =~= r.bytes().skip(index));
    law_search_misses_nothing(r.bytes(), val, index);
    law_search_misses_nothing(rest, val, 0);
    law_search_finds_the_first(r.bytes(), val, index, i);
    law_search_finds_the_first(rest, val, 0, (i - index) as usize);
    if i < r.bytes().len() {
        assert(r.bytes().subrange(index, i as int) =~= rest.subrange(0, i - index));
    }
}

/// With at least two places, both slices of readable bytes are handed out, and together they
/// are all the readable bytes; with fewer places, as many are handed out as there are places.
/// The first slice is not empty unless there is nothing to read, and where there is a second
/// one the first ends where the storage ends.
pub proof fn law_chunks_are_all_bytes(r: Ring, places: nat)
    requires
        r.wf(),
        r.storage.len() > 0,
    ensures
        places >= 2 ==> crate::model::min(2, places as int) == 2,
        places < 2 ==> crate::model::min(2, places as int) == places,
        ({
            let split = r.bytes_split(r.len());
            &&& 0 <= split <= r.bytes().len()
            &&& r.bytes().take(split) + r.bytes().skip(split) == r.bytes()
            &&& r.bytes().len() > 0 ==> split > 0
            &&& r.read + split <= r.storage.len()
            &&& split < r.bytes().len() ==> r.read + split == r.storage.len()
        }),
{
    let split = r.bytes_split(r.len());
    assert(r.bytes().take(split) + r.bytes().skip(split) =~= r.bytes());
}

/// The slices of readable bytes hold as many bytes as were asked for unless there are not so
/// many, and then they hold all there are. The first one stops before that only at the end of
/// the storage.
pub proof fn law_bytes_slices_stop(r: Ring, size: int)
    requires
        r.wf(),
        r.storage.len() > 0,
        0 <= size,
    ensures
        ({
            let total = crate::model::min(size, r.len());
            let split = r.bytes_split(size);
            &&& total <= size && total <= r.bytes().len()
            &&& total == size || total == r.bytes().len()
            &&& 0 <= split <= total
            &&& r.read + split <= r.storage.len()
            &&& split == total || r.read + split == r.storage.len()
        }),
{
}

/// The slices of available bytes hold as many bytes as were asked for unless there is not so
/// much room, and then they hold all the room there is. The first one stops before that only
/// at the end of the storage.
pub proof fn law_avail_slices_stop(r: Ring, size: int)
    requires
        r.wf(),
        r.storage.len() > 0,
        0 <= size,
    ensures
        ({
            let room = r.storage.len() - 1 - r.bytes().len();
            let total = crate::model::min(size, r.avail());
            let split = r.avail_split(size);
            &&& total <= size && total <= room
            &&& total == size || total == room
            &&& 0 <= split <= total
            &&& r.write + split <= r.storage.len()
            &&& split == total || r.write + split == r.storage.len()
        }),
{
}

/// Each error has a text of its own, which says what is wrong.
pub proof fn law_messages(a: CircBufError, b: CircBufError)
    ensures
        a is BufEmpty ==> a.message() == "CircBuf is empty"@,
        a is BufFull ==> a.message() == "CircBuf is full"@,
        a is Overflow ==> a.message() == "Value would overflow usize"@,
        a is NotEnoughData ==> a.message() == "Doesn't have enough data to advance read cursor"@,
        a is NotEnoughPlace ==> a.message()
            == "Doesn't have enough place to advance write cursor"@,
        a.message() == b.message() ==> a == b,
{
    reveal_strlit("CircBuf is empty");
    reveal_strlit("CircBuf is full");
    reveal_strlit("Value would overflow usize");
    reveal_strlit("Doesn't have enough data to advance read cursor");
    reveal_strlit("Doesn't have enough place to advance write cursor");
    assert(a.message().len() == b.message().len() ==> a == b);
}

} // verus!
