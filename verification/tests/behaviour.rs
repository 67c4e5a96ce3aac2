use circbuf::{CircBuf, CircBufError, DEFAULT_SIZE_MULTIPLIER};

/// A buffer of the given size, empty, with both cursors at `place`.
fn empty_at(size: usize, place: usize) -> CircBuf {
    let mut c = CircBuf::with_capacity(size).unwrap();
    c.advance_read_raw(place);
    c.advance_write_raw(place);
    c
}

fn contents(c: &CircBuf) -> Vec<u8> {
    let [first, second] = c.get_bytes();
    let mut v = first.to_vec();
    v.extend_from_slice(second);
    v
}

#[test]
fn sizes_are_rounded_up() {
    assert_eq!(CircBuf::with_capacity(0).unwrap().cap(), 0);
    assert_eq!(CircBuf::with_capacity(1).unwrap().cap(), 0);
    assert_eq!(CircBuf::with_capacity(2).unwrap().cap(), 1);
    assert_eq!(CircBuf::with_capacity(3).unwrap().cap(), 3);
    assert_eq!(CircBuf::with_capacity(64).unwrap().cap(), 63);
    assert_eq!(CircBuf::with_capacity(65).unwrap().cap(), 127);
    assert!(matches!(
        CircBuf::with_capacity(usize::MAX),
        Err(CircBufError::Overflow)
    ));
    assert!(matches!(
        CircBuf::with_capacity(usize::MAX / 2 + 2),
        Err(CircBufError::Overflow)
    ));
}

#[test]
fn a_buffer_of_the_smallest_size_holds_nothing() {
    let mut c = CircBuf::with_capacity(1).unwrap();
    assert!(c.is_empty());
    assert!(c.is_full());
    assert!(matches!(c.put(1), Err(CircBufError::BufFull)));
    assert_eq!(c.write(b"abc").unwrap(), 0);
    assert_eq!(c.find(0), None);
    c.grow().unwrap();
    assert_eq!(c.cap(), 1);
    c.put(1).unwrap();
    assert!(c.is_full());
    assert_eq!(c.get().unwrap(), 1);
}

#[test]
fn a_default_buffer_has_no_storage() {
    let mut c = CircBuf::default();
    assert_eq!(c.len(), 0);
    assert!(c.is_empty());
    assert!(matches!(c.peek(), Err(CircBufError::BufEmpty)));
    assert!(matches!(c.get(), Err(CircBufError::BufEmpty)));
    assert_eq!(c.find(0), None);
    assert!(matches!(c.advance_read(1), Err(CircBufError::NotEnoughData)));
    let mut out = [7; 2];
    assert_eq!(c.read(&mut out).unwrap(), 0);
    assert_eq!(out, [7, 7]);
    assert_eq!(c.reader_peek().read(&mut out).unwrap(), 0);
    assert_eq!(c.reader_peek().count_peek(), 0);
    c.clear();
    assert!(c.is_empty());
}

#[test]
fn error_messages() {
    assert_eq!(CircBufError::BufEmpty.to_string(), "CircBuf is empty");
    assert_eq!(CircBufError::BufFull.to_string(), "CircBuf is full");
    assert_eq!(
        CircBufError::Overflow.to_string(),
        "Value would overflow usize"
    );
    assert_eq!(
        CircBufError::NotEnoughData.to_string(),
        "Doesn't have enough data to advance read cursor"
    );
    assert_eq!(
        CircBufError::NotEnoughPlace.clone().to_string(),
        "Doesn't have enough place to advance write cursor"
    );
}

#[test]
fn refused_moves_change_nothing() {
    let mut c = empty_at(8, 6);
    c.write(b"abcd").unwrap();

    assert!(matches!(c.advance_read(5), Err(CircBufError::NotEnoughData)));
    assert!(matches!(
        c.advance_write(4),
        Err(CircBufError::NotEnoughPlace)
    ));
    assert!(matches!(
        c.grow_with_factor(usize::MAX),
        Err(CircBufError::Overflow)
    ));
    assert!(matches!(
        c.grow_with_factor(usize::MAX / 8),
        Err(CircBufError::Overflow)
    ));
    assert_eq!(c.cap(), 7);
    assert_eq!(contents(&c), b"abcd");
}

#[test]
fn a_search_starts_at_the_index() {
    for place in 0..8 {
        let mut c = empty_at(8, place);
        c.write(b"xaxbxa").unwrap();

        assert_eq!(c.find_from_index(b'x', 0), Some(0));
        assert_eq!(c.find_from_index(b'x', 1), Some(2));
        assert_eq!(c.find_from_index(b'x', 3), Some(4));
        assert_eq!(c.find_from_index(b'x', 5), None);
        assert_eq!(c.find_from_index(b'a', 2), Some(5));
        assert_eq!(c.find_from_index(b'b', 4), None);
        assert_eq!(c.find_from_index(b'a', 6), None);
        assert_eq!(c.find_from_index(b'a', usize::MAX), None);
        assert_eq!(c.find(b'z'), None);
    }
}

#[test]
fn a_search_is_resumed_and_the_separator_passed() {
    let mut c = empty_at(16, 13);
    c.write(b"ab").unwrap();
    assert_eq!(c.find(b'|'), None);
    let searched = c.len();
    c.write(b"c|de|").unwrap();

    let i = c.find_from_index(b'|', searched).unwrap();
    assert_eq!(i, 3);
    assert_eq!(c.find(b'|'), Some(i));
    c.advance_read(i + 1).unwrap();
    assert_eq!(contents(&c), b"de|");
}

#[test]
fn growing_keeps_the_bytes_wherever_they_are() {
    for place in 0..8 {
        for factor in 1..5 {
            let mut c = empty_at(8, place);
            c.write(b"abcdef").unwrap();
            c.grow_with_factor(factor).unwrap();
            let size = [8, 16, 32, 32][factor - 1];
            assert_eq!(c.cap(), size - 1);
            assert_eq!(contents(&c), b"abcdef");
            assert_eq!(c.avail(), size - 1 - 6);
            assert_eq!(c.read_cursor(), 0);
        }
    }
    assert_eq!(DEFAULT_SIZE_MULTIPLIER, 2);
}

#[test]
fn a_factor_of_zero_leaves_the_smallest_size() {
    let mut c = empty_at(8, 5);
    c.grow_with_factor(0).unwrap();
    assert_eq!(c.cap(), 0);
    assert!(c.is_empty());
}

#[test]
fn the_new_storage_is_zero_behind_the_bytes() {
    let mut c = empty_at(4, 3);
    c.write(b"ab").unwrap();
    c.grow().unwrap();
    c.advance_write(5).unwrap();
    assert_eq!(contents(&c), b"ab\0\0\0\0\0");
}

#[test]
fn what_is_written_is_read_in_order() {
    for place in 0..8 {
        let mut c = empty_at(8, place);
        assert_eq!(c.write(b"abc").unwrap(), 3);
        assert_eq!(c.write(b"defghij").unwrap(), 4);
        assert!(c.is_full());
        assert_eq!(c.write(b"k").unwrap(), 0);

        let mut out = [b'.'; 4];
        assert_eq!(c.read(&mut out).unwrap(), 4);
        assert_eq!(&out, b"abcd");
        assert_eq!(c.peek().unwrap(), b'e');
        assert_eq!(c.read(&mut out).unwrap(), 3);
        assert_eq!(&out, b"efgd");
        assert_eq!(c.read(&mut out).unwrap(), 0);
        assert!(c.is_empty());
    }
}

#[test]
fn reading_and_writing_commute() {
    for place in 0..8 {
        let mut c = empty_at(8, place);
        c.write(b"abcd").unwrap();
        let mut d = empty_at(8, place);
        d.write(b"abcd").unwrap();

        c.write(b"ef").unwrap();
        c.advance_read(3).unwrap();
        d.advance_read(3).unwrap();
        d.write(b"e").unwrap();
        d.write(b"f").unwrap();
        assert_eq!(contents(&c), b"def");
        assert_eq!(contents(&d), b"def");
        assert_eq!(c.read_cursor(), d.read_cursor());
    }
}

#[test]
fn raw_moves_go_round() {
    let mut c = CircBuf::with_capacity(8).unwrap();
    c.write(b"abcdefg").unwrap();
    c.advance_read_raw(5);
    assert_eq!(contents(&c), b"fg");
    // past the write cursor, the read cursor meets the old bytes again
    c.advance_read_raw(5);
    assert_eq!(c.read_cursor(), 2);
    assert_eq!(contents(&c), b"cdefg");
    c.advance_write_raw(8);
    assert_eq!(contents(&c), b"cdefg");
    c.advance_read_raw(19);
    c.advance_write_raw(19);
    assert_eq!(c.len(), 5);
}

#[test]
fn a_cleared_buffer_starts_over() {
    let mut c = empty_at(8, 5);
    c.write(b"abcd").unwrap();
    c.clear();
    assert!(c.is_empty());
    assert_eq!(c.avail(), 7);
    assert_eq!(c.read_cursor(), 0);
    // the storage itself was left as it was
    c.advance_write(1).unwrap();
    assert_eq!(c.get().unwrap(), b'd');
}

#[test]
fn slices_of_the_room_can_be_filled() {
    for place in 0..8 {
        let mut c = empty_at(8, place);
        c.write(b"ab").unwrap();
        {
            let [first, second] = c.get_avail();
            assert_eq!(first.len() + second.len(), 5);
            let mut next = b'c';
            for byte in first.iter_mut().chain(second.iter_mut()) {
                *byte = next;
                next += 1;
            }
        }
        assert_eq!(contents(&c), b"ab");
        c.advance_write(4).unwrap();
        assert_eq!(contents(&c), b"abcdef");
        c.advance_write(1).unwrap();
        assert_eq!(contents(&c), b"abcdefg");
    }
}

#[test]
fn slices_meet_at_the_end_of_the_storage() {
    let mut c = empty_at(8, 5);
    {
        let [first, second] = c.get_avail_upto_size(3);
        assert_eq!((first.len(), second.len()), (3, 0));
    }
    {
        let [first, second] = c.get_avail_upto_size(4);
        assert_eq!((first.len(), second.len()), (3, 1));
    }
    c.write(b"abcdef").unwrap();
    assert_eq!(c.get_bytes_upto_size(3), [&b"abc"[..], &b""[..]]);
    assert_eq!(c.get_bytes_upto_size(4), [&b"abc"[..], &b"d"[..]]);
    assert_eq!(c.get_bytes(), [&b"abc"[..], &b"def"[..]]);
    assert_eq!(c.get_bytes_upto_size(0), [&b""[..], &b""[..]]);
}

#[test]
fn peeking_leaves_the_bytes() {
    for place in 0..8 {
        let mut c = empty_at(8, place);
        c.write(b"abcdef").unwrap();

        let mut reader = c.reader_peek();
        assert_eq!(reader.len(), 6);
        assert_eq!(reader.count_peek(), 0);
        let mut out = [b'.'; 4];
        assert_eq!(reader.read(&mut out).unwrap(), 4);
        assert_eq!(&out, b"abcd");
        assert_eq!(reader.count_peek(), 4);
        assert_eq!(reader.read(&mut out).unwrap(), 2);
        assert_eq!(&out, b"efcd");
        assert!(reader.is_empty());
        assert_eq!(reader.read(&mut out).unwrap(), 0);

        reader.reset();
        assert_eq!(reader.len(), 6);
        assert_eq!(reader.read(&mut out).unwrap(), 4);
        assert_eq!(&out, b"abcd");

        let peeked = reader.count_peek();
        assert_eq!(contents(&c), b"abcdef");
        c.advance_read(peeked).unwrap();
        assert_eq!(contents(&c), b"ef");
    }
}
