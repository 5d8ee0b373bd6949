//! What can end a decode.

use vstd::prelude::*;

verus! {

/// Why a decode stopped.
#[derive(Clone, Copy, Debug, PartialEq, Eq, Structural)]
pub enum DecodeErrorKind {
    /// A command needs more parameter words than the stream still holds.
    BufferUnderrun,
    /// A header names a command category that does not exist.
    MalformedStream,
}

/// A fatal decode error together with the header at which it arose.
#[derive(Clone, Copy, Debug, PartialEq, Eq, Structural)]
pub struct DecodeError {
    pub kind: DecodeErrorKind,
    /// Index, in the input, of the header word of the failing command.
    pub word_index: usize,
    /// Category field of that header (bits 29..=31).
    pub category: u8,
    /// Sub-opcode field of that header (bits 24..=28).
    pub subopcode: u8,
}

} // verus!
