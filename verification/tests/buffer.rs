use circbuf::{CircBuf, CircBufError, CircBufPeekReader, DEFAULT_CAPACITY};
use std::io::{Read, Seek, SeekFrom, Write};
use vecio::Rawv;

/// Lets the functions of `std::io` write to and read from a buffer.
struct Stream<'a>(&'a mut CircBuf);

impl<'a> Read for Stream<'a> {
    fn read(&mut self, buf: &mut [u8]) -> std::io::Result<usize> {
        if buf.is_empty() {
            return Ok(0);
        }
        Ok(self.0.read(buf).unwrap())
    }
}

impl<'a> Write for Stream<'a> {
    fn write(&mut self, buf: &[u8]) -> std::io::Result<usize> {
        Ok(self.0.write(buf).unwrap())
    }

    fn flush(&mut self) -> std::io::Result<()> {
        Ok(())
    }
}

/// Lets the functions of `std::io` read through a reader that leaves the bytes in the buffer.
struct PeekStream<'a, 'b>(&'a mut CircBufPeekReader<'b>);

impl<'a, 'b> Read for PeekStream<'a, 'b> {
    fn read(&mut self, buf: &mut [u8]) -> std::io::Result<usize> {
        if buf.is_empty() {
            return Ok(0);
        }
        Ok(self.0.read(buf).unwrap())
    }
}

#[test]
fn create_circbuf() {
    let c = CircBuf::new();

    assert_eq!(c.cap(), DEFAULT_CAPACITY - 1);
    assert_eq!(c.avail(), DEFAULT_CAPACITY - 1);
    assert_eq!(c.len(), 0);
    assert!(c.is_empty());
}

#[test]
fn create_circbuf_with_capacity() {
    let c = CircBuf::with_capacity(49).unwrap();

    assert_eq!(c.cap(), 64 - 1);
    assert_eq!(c.avail(), 64 - 1);
    assert_eq!(c.len(), 0);
    assert!(c.is_empty());
}

#[test]
fn put_peek_and_get_bytes() {
    let mut c = CircBuf::with_capacity(4).unwrap();

    c.put(1).unwrap();
    c.put(2).unwrap();
    c.put(3).unwrap();

    assert_eq!(
        c.put(4).unwrap_err().to_string(),
        CircBufError::BufFull.to_string()
    );
    assert_eq!(c.avail(), 0);
    assert_eq!(c.len(), 3);
    assert!(c.is_full());

    assert_eq!(c.peek().unwrap(), 1);
    assert_eq!(c.get().unwrap(), 1);
    assert_eq!(c.peek().unwrap(), 2);
    assert_eq!(c.get().unwrap(), 2);
    assert_eq!(c.peek().unwrap(), 3);
    assert_eq!(c.get().unwrap(), 3);
    assert_eq!(
        c.get().unwrap_err().to_string(),
        CircBufError::BufEmpty.to_string()
    );

    assert_eq!(c.avail(), 3);
    assert_eq!(c.len(), 0);
    assert!(c.is_empty());

    // check that everything continues to work when we wrap around the buffer
    c.put(4).unwrap();
    c.put(5).unwrap();
    c.put(6).unwrap();

    assert_eq!(c.peek().unwrap(), 4);
    assert_eq!(c.get().unwrap(), 4);
    assert_eq!(c.peek().unwrap(), 5);
    assert_eq!(c.get().unwrap(), 5);
    assert_eq!(c.peek().unwrap(), 6);
    assert_eq!(c.get().unwrap(), 6);
}

#[test]
fn find_bytes() {
    let mut c = CircBuf::with_capacity(8).unwrap();

    c.put(7).unwrap();
    c.put(6).unwrap();
    c.put(5).unwrap();
    c.put(4).unwrap();
    c.put(3).unwrap();
    c.put(2).unwrap();
    c.put(1).unwrap();

    assert_eq!(c.find(4).unwrap(), 3);
    assert_eq!(c.find_from_index(3, 2).unwrap(), 4);
    assert!(c.find_from_index(6, 2).is_none());

    c.advance_read(4).unwrap();

    assert_eq!(c.find(1).unwrap(), 2);
    assert!(c.find(5).is_none());

    // wrap around the buffer
    c.put(10).unwrap();
    c.put(11).unwrap();
    c.put(12).unwrap();

    assert_eq!(c.find(12).unwrap(), 5);
    assert_eq!(c.find_from_index(12, 4).unwrap(), 5);
}

#[test]
fn grow_buffer() {
    let mut c = CircBuf::with_capacity(4).unwrap();

    c.put(1).unwrap();
    c.put(2).unwrap();
    c.put(3).unwrap();

    c.grow().unwrap();

    assert!(c.cap() == 8 - 1);
    assert!(c.avail() == 4);
    assert!(c.len() == 3);

    assert_eq!(c.get().unwrap(), 1);
    assert_eq!(c.get().unwrap(), 2);
    assert_eq!(c.get().unwrap(), 3);

    // grow a buffer that wraps around
    c.advance_read_raw(7);
    c.advance_write_raw(7);

    c.put(1).unwrap();
    c.put(2).unwrap();
    c.put(3).unwrap();

    c.grow().unwrap();

    assert_eq!(c.get().unwrap(), 1);
    assert_eq!(c.get().unwrap(), 2);
    assert_eq!(c.get().unwrap(), 3);
}

#[test]
fn read_and_write_bytes() {
    let mut c = CircBuf::with_capacity(8).unwrap();

    assert_eq!(c.write(b"foo").unwrap(), 3);
    assert_eq!(c.write(b"bar").unwrap(), 3);

    // ignore empty writes
    assert_eq!(c.write(b"").unwrap(), 0);

    assert_eq!(c.cap(), 7);
    assert_eq!(c.avail(), 1);
    assert_eq!(c.len(), 6);

    let mut buf = [0; 6];

    assert_eq!(c.read(&mut buf).unwrap(), 6);
    assert!(b"foobar".iter().zip(buf.iter()).all(|(a, b)| a == b));

    assert_eq!(c.cap(), 7);
    assert_eq!(c.avail(), 7);
    assert_eq!(c.len(), 0);

    // test read and write on a buffer that wraps around
    c.advance_read_raw(7);
    c.advance_write_raw(7);

    assert_eq!(c.write(b"foo").unwrap(), 3);
    assert_eq!(c.write(b"bar").unwrap(), 3);

    let mut buf = [0; 6];

    assert_eq!(c.read(&mut buf).unwrap(), 6);
    assert!(b"foobar".iter().zip(buf.iter()).all(|(a, b)| a == b));
}

#[test]
fn get_bytes_and_avail() {
    let mut c = CircBuf::with_capacity(16).unwrap();

    assert_eq!(c.write(b"funkytowns").unwrap(), 10);
    assert_eq!(c.len(), 10);
    assert_eq!(c.avail(), 5);

    {
        let bufs = c.get_avail_upto_size(4);
        assert_eq!(bufs.len(), 2);
        assert_eq!(bufs[0].len(), 4);
        assert_eq!(bufs[1].len(), 0);
    }

    {
        let bufs = c.get_bytes_upto_size(5);
        assert_eq!(bufs.len(), 2);
        assert_eq!(bufs[0].len(), 5);
        assert_eq!(bufs[1].len(), 0);
        assert!(b"funky".iter().zip(bufs[0].iter()).all(|(a, b)| a == b));
    }

    // test when size is greate than `c.avail()` and `c.len()` respectively
    {
        let bufs = c.get_avail_upto_size(10);
        assert_eq!(bufs.len(), 2);
        assert_eq!(bufs[0].len(), 5);
        assert_eq!(bufs[1].len(), 0);
    }

    {
        let bufs = c.get_bytes_upto_size(12);
        assert_eq!(bufs.len(), 2);
        assert_eq!(bufs[0].len(), 10);
        assert_eq!(bufs[1].len(), 0);
        assert!(b"funky".iter().zip(bufs[0].iter()).all(|(a, b)| a == b));
    }

    {
        let bufs = c.get_avail();
        assert_eq!(bufs.len(), 2);
        assert_eq!(bufs[0].len(), 5);
        assert_eq!(bufs[1].len(), 0);
    }

    {
        let bufs = c.get_bytes();
        assert_eq!(bufs.len(), 2);
        assert_eq!(bufs[0].len(), 10);
        assert_eq!(bufs[1].len(), 0);
        assert!(b"funkytowns"
            .iter()
            .zip(bufs[0].iter())
            .all(|(a, b)| a == b));
    }

    // test when the buffer wraps around
    c.advance_read(10).unwrap();
    assert_eq!(c.write(b"brickhouse").unwrap(), 10);
    assert_eq!(c.len(), 10);
    assert_eq!(c.avail(), 5);

    {
        let bufs = c.get_avail_upto_size(4);
        assert_eq!(bufs.len(), 2);
        assert_eq!(bufs[0].len(), 4);
        assert_eq!(bufs[1].len(), 0);
    }

    {
        let bufs = c.get_bytes_upto_size(8);
        assert_eq!(bufs.len(), 2);
        assert_eq!(bufs[0].len(), 6);
        assert_eq!(bufs[1].len(), 2);
        assert!(b"brickh".iter().zip(bufs[0].iter()).all(|(a, b)| a == b));
        assert!(b"ou".iter().zip(bufs[1].iter()).all(|(a, b)| a == b));
    }

    // test when size is greate than `c.avail()` and `c.len()` respectively
    {
        let bufs = c.get_avail_upto_size(17);
        assert_eq!(bufs.len(), 2);
        assert_eq!(bufs[0].len(), 5);
        assert_eq!(bufs[1].len(), 0);
    }

    {
        let bufs = c.get_bytes_upto_size(12);
        assert_eq!(bufs.len(), 2);
        assert_eq!(bufs[0].len(), 6);
        assert_eq!(bufs[1].len(), 4);
        assert!(b"brickh".iter().zip(bufs[0].iter()).all(|(a, b)| a == b));
        assert!(b"ouse".iter().zip(bufs[1].iter()).all(|(a, b)| a == b));
    }

    {
        let bufs = c.get_avail();
        assert_eq!(bufs.len(), 2);
        assert_eq!(bufs[0].len(), 5);
        assert_eq!(bufs[1].len(), 0);
    }

    {
        let bufs = c.get_bytes();
        assert_eq!(bufs.len(), 2);
        assert_eq!(bufs[0].len(), 6);
        assert_eq!(bufs[1].len(), 4);
        assert!(b"brickh".iter().zip(bufs[0].iter()).all(|(a, b)| a == b));
        assert!(b"ouse".iter().zip(bufs[1].iter()).all(|(a, b)| a == b));
    }
}

#[test]
fn reader_peek() {
    let data = &b"foo\nbar\nbaz\n"[..];
    let mut c = CircBuf::with_capacity(data.len()).unwrap();

    for _ in 0..42 {
        Stream(&mut c).write_all(data).unwrap();

        let read_cursor = c.read_cursor();
        let mut v = Vec::new();
        let mut peek_reader = c.reader_peek();
        let readed = std::io::copy(&mut PeekStream(&mut peek_reader), &mut v).unwrap() as usize;
        assert!(peek_reader.is_empty());
        assert_eq!(peek_reader.count_peek(), data.len());
        assert_eq!(peek_reader.len(), 0);
        assert_eq!(v, data);
        assert_eq!(c.read_cursor(), read_cursor);

        c.advance_read(readed).unwrap();
    }
}

#[test]
fn vecio() {
    let mut c = CircBuf::with_capacity(16).unwrap();

    let mut file = tempfile::tempfile().unwrap();
    assert_eq!(file.write(b"foo\nbar\nbaz\n").unwrap(), 12);
    file.seek(SeekFrom::Current(-12)).unwrap();

    {
        let mut bufs = c.get_avail();
        assert_eq!(file.readv(&mut bufs).unwrap(), 12);
    }

    // advance the write cursor since we just wrote 12 bytes to the buffer
    c.advance_write(12).unwrap();

    // wrap around the buffer
    c.advance_read(12).unwrap();
    assert_eq!(c.write(b"fizzbuzz").unwrap(), 8);

    let mut s = String::new();
    assert_eq!(Stream(&mut c).read_to_string(&mut s).unwrap(), 8);
    assert_eq!(s, "fizzbuzz");
}
