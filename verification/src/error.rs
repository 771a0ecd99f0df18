//! What can go wrong when a buffer is built or read back.

use vstd::prelude::*;

verus! {

/// Why a buffer could not be built, changed or read back.
#[derive(Clone, Copy, Debug, PartialEq, Eq, Structural)]
pub enum BufferError {
    /// The buffer would hold more records than its byte image has room for.
    TooManyElements,
    /// The light at this position of the input has an intensity below zero.
    NegativeIntensity { index: usize },
    /// The buffer has no record at this position.
    OutOfRange { index: usize },
    /// The bytes are not the image of a buffer.
    MalformedImage,
}

} // verus!
