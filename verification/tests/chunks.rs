use circbuf::CircBuf;

#[test]
fn bytes_buf_and_bufmut() {
    let mut c = CircBuf::with_capacity(4).unwrap();

    assert_eq!(c.remaining(), 0);
    assert_eq!(c.remaining_mut(), 3);
    c.advance_mut(2);
    assert_eq!(c.remaining(), 2);
    assert_eq!(c.remaining_mut(), 1);
    c.advance(1);
    assert_eq!(c.remaining(), 1);
    assert_eq!(c.remaining_mut(), 2);
    c.advance_mut(1);
    assert_eq!(c.remaining(), 2);
    assert_eq!(c.remaining_mut(), 1);

    assert_eq!(c.chunk().len(), 2);
    assert_eq!(c.chunk_mut().len(), 1);

    let empty: &[u8] = &[];
    let mut dst = [empty; 2];
    assert_eq!(c.chunks_vectored(&mut dst[..]), 2);

    assert_eq!(dst[0].len(), 2);
    assert_eq!(dst[1].len(), 0);
}

#[test]
fn bytes_buf_remaining() {
    let mut c = CircBuf::with_capacity(4).unwrap();

    assert_eq!(c.remaining(), 0);
    assert_eq!(c.remaining_mut(), 3);
    assert!(!(c.remaining() > 0));
    assert!(c.remaining_mut() > 0);

    c.advance_mut(3);

    assert_eq!(c.remaining(), 3);
    assert_eq!(c.remaining_mut(), 0);
    assert!(c.remaining() > 0);
    assert!(!(c.remaining_mut() > 0));

    c.advance(2);

    assert_eq!(c.remaining(), 1);
    assert_eq!(c.remaining_mut(), 2);
    assert!(c.remaining() > 0);
    assert!(c.remaining_mut() > 0);

    c.advance(1);

    assert_eq!(c.remaining(), 0);
    assert_eq!(c.remaining_mut(), 3);
    assert!(!(c.remaining() > 0));
    assert!(c.remaining_mut() > 0);
}

#[test]
fn bytes_bufmut_hello() {
    let mut c = CircBuf::with_capacity(16).unwrap();

    c.chunk_mut()[0] = b'h';
    c.chunk_mut()[1] = b'e';

    c.advance_mut(2);

    c.chunk_mut()[0] = b'l';
    c.chunk_mut()[1] = b'l';
    c.chunk_mut()[2] = b'o';

    c.advance_mut(3);

    assert_eq!(c.get_bytes()[0], b"hello");
}

#[test]
fn chunks_of_a_wrapped_buffer() {
    let mut c = CircBuf::with_capacity(8).unwrap();
    c.write(b"abcdef").unwrap();
    c.advance(4);
    c.write(b"ghi").unwrap();

    // "efgh" ends at the end of the underlying buffer, "i" starts at its start
    assert_eq!(c.chunk(), b"efgh");
    let empty: &[u8] = &[];
    let mut dst = [empty, empty, b"keep"];
    assert_eq!(c.chunks_vectored(&mut dst[..]), 2);
    assert_eq!(dst[0], b"efgh");
    assert_eq!(dst[1], b"i");
    assert_eq!(dst[2], b"keep");

    let mut one = [empty];
    assert_eq!(c.chunks_vectored(&mut one[..]), 1);
    assert_eq!(one[0], b"efgh");
    let mut none: [&[u8]; 0] = [];
    assert_eq!(c.chunks_vectored(&mut none[..]), 0);

    // the second chunk is what is left once the first has been passed
    c.advance(4);
    assert_eq!(c.chunk(), b"i");
    c.advance(1);
    assert!(c.chunk().is_empty());
}

#[test]
fn chunks_of_the_room_in_a_buffer() {
    let mut c = CircBuf::with_capacity(8).unwrap();
    c.write(b"abcdef").unwrap();
    c.advance(4);

    assert_eq!(c.remaining_mut(), 5);
    assert_eq!(c.chunk_mut().len(), 2);
    c.chunk_mut().copy_from_slice(b"gh");
    c.advance_mut(2);
    assert_eq!(c.chunk_mut().len(), 3);
    c.chunk_mut().copy_from_slice(b"ijk");
    c.advance_mut(3);
    assert!(c.chunk_mut().is_empty());
    assert!(c.is_full());

    let mut out = [0; 7];
    assert_eq!(c.read(&mut out).unwrap(), 7);
    assert_eq!(&out, b"efghijk");
}
