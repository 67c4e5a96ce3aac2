//! The errors of the circular buffer.

use vstd::prelude::*;

verus! {

/// Circular Buffer Error
///
/// The errors that are used with `CircBuf`: that the buffer is empty or full, that a size
/// does not fit in a `usize`, or that a cursor was asked to move further than it may.
#[derive(Debug)]
pub enum CircBufError {
    BufEmpty,
    BufFull,
    Overflow,
    NotEnoughData,
    NotEnoughPlace,
}

impl Clone for CircBufError {
    fn clone(&self) -> (e: Self)
        ensures
            e == *self,
    {
        match self {
            CircBufError::BufEmpty => CircBufError::BufEmpty,
            CircBufError::BufFull => CircBufError::BufFull,
            CircBufError::Overflow => CircBufError::Overflow,
            CircBufError::NotEnoughData => CircBufError::NotEnoughData,
            CircBufError::NotEnoughPlace => CircBufError::NotEnoughPlace,
        }
    }
}

impl CircBufError {
    /// The text of the error.
    pub open spec fn message(self) -> Seq<char> {
        match self {
            CircBufError::BufEmpty => "CircBuf is empty"@,
            CircBufError::BufFull => "CircBuf is full"@,
            CircBufError::Overflow => "Value would overflow usize"@,
            CircBufError::NotEnoughData => "Doesn't have enough data to advance read cursor"@,
            CircBufError::NotEnoughPlace => "Doesn't have enough place to advance write cursor"@,
        }
    }

    /// Get the text of the error.
    pub fn to_string(&self) -> (s: String)
        ensures
            s@ == self.message(),
    {
        match self {
            CircBufError::BufEmpty => "CircBuf is empty".to_string(),
            CircBufError::BufFull => "CircBuf is full".to_string(),
            CircBufError::Overflow => "Value would overflow usize".to_string(),
            CircBufError::NotEnoughData => {
                "Doesn't have enough data to advance read cursor".to_string()
            },
            CircBufError::NotEnoughPlace => {
                "Doesn't have enough place to advance write cursor".to_string()
            },
        }
    }
}

} // verus!
