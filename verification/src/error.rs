//! The error taxonomy of the codec.

use vstd::prelude::*;

verus! {

/// An error raised while decoding or encoding a class file.
///
/// Every variant carries enough context (offset, expected versus actual
/// value, tag or index) to render a precise diagnostic.
#[derive(Clone, Copy, Debug, PartialEq, Eq, Structural)]
pub enum ClassFileError {
    /// Wrong magic, a truncated stream, or a length field that overruns the
    /// buffer. `expected` and `actual` hold the expected and the found value
    /// (for truncation: the number of bytes needed and the number left).
    StructuralError { offset: usize, expected: u64, actual: u64 },
    /// An unrecognized constant-pool tag or instruction opcode; fatal, since
    /// the operand width of an unknown tag is unknown.
    UnknownTag { offset: usize, tag: u8 },
    /// A constant-pool string that is invalid even after the modified-UTF-8
    /// null repair pass.
    Encoding { offset: usize },
    /// A constant-pool index that is 0, out of range, or names an entry of
    /// the wrong variant; raised only when the index is dereferenced.
    Resolution { index: usize },
    /// Encode-only: a value does not fit its field on the wire.
    Range { value: usize },
}

} // verus!
