//! A growable circular buffer of bytes. The `CircBuf` struct manages a buffer of bytes
//! allocated on the heap. The buffer can be grown when needed and can return slices into its
//! internal buffer that can be used for both normal IO (`read` and `write`) as well as vector
//! IO (`readv` and `writev`).
//!
//! The contracts speak of a `CircBuf` through its view, a `model::Ring`: the underlying
//! storage and the two cursors, with `bytes()` for the readable bytes in order. What holds
//! across several calls is stated in `laws`, and in `power` for the sizes of the storage.
//!
//! ## Example
//!
//! ``` rust,no_run
//! use circbuf::CircBuf;
//!
//! let mut buf = CircBuf::with_capacity(64).unwrap();
//! buf.write(b"first|second").unwrap();
//!
//! // messages are separated by a vertical bar
//! let end = buf.find(b'|').unwrap();
//! let mut message = vec![0; end];
//! buf.read(&mut message).unwrap();
//! buf.advance_read(1).unwrap();
//! ```

pub mod bytes;
pub mod circbuf;
pub mod error;
pub mod laws;
pub mod model;
pub mod power;
pub mod reader;

pub use crate::circbuf::{CircBuf, DEFAULT_CAPACITY, DEFAULT_SIZE_MULTIPLIER};
pub use crate::error::CircBufError;
pub use crate::reader::CircBufPeekReader;
