# circbuf

A growable circular buffer of bytes, verified with Verus.

- `src/circbuf.rs`: `CircBuf`, with its contracts and their proofs
- `src/reader.rs`: `CircBufPeekReader`, which reads and leaves the bytes in the buffer
- `src/bytes.rs`: the buffer as a sequence of contiguous chunks
- `src/error.rs`: `CircBufError`
- `src/model.rs`: the states that the contracts speak of
- `src/laws.rs`, `src/power.rs`: what holds across several calls
- `app/`: adapters to `std::io::Read`, `std::io::Write`, `std::error::Error`, and to `Buf` and
  `BufMut` of the `bytes` crate

A `CircBuf` of size `n` holds at most `n - 1` bytes: equal cursors mean that it is empty.
