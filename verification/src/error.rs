//! The errors that reading and writing SEG-Y data can end in.
use vstd::prelude::*;

verus! {

/// Why a SEG-Y file could not be read or written.
#[derive(Clone, Copy, Debug, PartialEq, Eq, Structural)]
pub enum Error {
    /// The file does not follow the SEG-Y layout.
    IncorrectSegyFormat(),
    /// The endianness constant of the binary header is none of `0x01020304`,
    /// `0x04030201` and `0`.
    UnsupportedEndianness(u32),
    /// The data sample format code is not one that is supported.
    UnsupportedFormatCode(i16),
    /// The number of trailer stanzas is variable (`-1`).
    UnsupportedNumberOfStanzas(i32),
    /// The trace header value has no entry in the trace header table.
    NoSuchHeader(i32),
    /// The trace header value lies beyond the trace headers of a trace.
    TraceHeaderMap(i32),
    /// Both sample intervals of the binary header are zero.
    ZeroSampleInterval(),
    /// Both sample counts of the binary header are zero.
    ZeroSampleNumber(),
    /// The data sample format code is not allowed in the header's revision.
    WrongFormatForRevision(i16),
    /// The major revision of the binary header is not 0, 1 or 2.
    UnsupportedRevision(u8),
    /// The trace headers and samples given to write differ in number, or the
    /// header values of a trace differ in number from the header names.
    DiffDimToWrite(),
}

} // verus!
