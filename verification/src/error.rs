//! Error values reported by the buffer and by the codecs.

use vstd::prelude::*;

verus! {

/// Why a buffer operation was refused.
#[derive(Clone, Copy, Debug, PartialEq, Eq, Structural)]
pub enum BufError {
    /// A read asked for more bytes than are readable.
    BufferUnderflow,
    /// A value does not fit the integer width it was to be written in.
    WidthExceeded,
    /// The width is not between one and eight bytes.
    BadWidth,
}

/// Why a decoder gave up on the accumulated bytes.
#[derive(Clone, Copy, Debug, PartialEq, Eq, Structural)]
pub enum DecodeError {
    /// The bytes at the read cursor cannot begin a frame.
    Malformed,
}

} // verus!
