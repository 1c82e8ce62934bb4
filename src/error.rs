use vstd::prelude::*;

verus! {

/// Why a load, a metadata query or a duration query failed.
#[derive(Debug, Clone, Copy, PartialEq, Eq, Structural)]
pub enum LoadError {
    /// The file cannot be opened or read.
    IoFailure,
    /// The container format could not be identified.
    UnsupportedFormat,
    /// A required header field (channels, sample rate, frame count) is absent.
    MissingMetadata,
    /// The offset lies at or beyond the end of the stream, or the resolved
    /// duration holds no frame.
    InvalidWindow,
    /// The codec reported a malformed packet.
    DecodeFault,
    /// The packet stream ended before the requested frames were collected.
    ShortStream,
    /// A frame or sample count does not fit the type used to hold it.
    ConversionOverflow,
    /// A caller-supplied argument is out of its domain.
    InvalidArgument,
}

} // verus!
