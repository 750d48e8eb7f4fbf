use vstd::prelude::*;

verus! {

/// Failures that can arise while decoding the byte tables of an LSDA region.
///
/// Downstream consumers distinguish `UnknownEncoding` (an encoding byte whose
/// format this decoder does not handle) from every other failure, which is
/// treated as a generic inability to read the requested data.
#[derive(Clone, Copy, Debug, PartialEq, Eq, Structural)]
pub enum DecodeError {
    /// A read or skip ran past the end of the byte region.
    UnexpectedEof,
    /// A LEB128 value was malformed or too large for 64 bits.
    BadLeb128,
    /// A value was requested in the "omitted" encoding, which carries no data.
    CannotParseOmitEncoding,
    /// The encoding byte is not one of the supported pointer encodings.
    UnknownEncoding,
    /// No call-site table entry covers the requested address.
    NoCallSiteForAddress,
    /// The action-record chain exceeded the defensive step bound.
    ActionChainLimit,
}

/// Failures of a whole-file dump.
#[derive(Clone, Copy, Debug, PartialEq, Eq, Structural)]
pub enum DumpError {
    /// The object lacks a section named `.eh_frame` or one named `.text`.
    MissingRequiredSection,
    /// The frame-descriptor walk over `.eh_frame` failed.
    FrameDecodeFailure,
}

} // verus!
