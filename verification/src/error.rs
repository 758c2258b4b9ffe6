//! The error taxonomy of the decoding pipeline.

use vstd::prelude::*;

verus! {

/// Why a message body could not be parsed.
#[derive(Clone, Copy, PartialEq, Eq, Structural, Debug)]
pub enum ParseFault {
    /// The body began with a tag that names no known message kind.
    UnexpectedTag,
    /// A length field claimed more bytes than the input still holds.
    LengthExceedsInput,
    /// The configured recursion or byte limit was reached.
    LimitExceeded,
}

/// Everything that can go wrong while decoding one stream.
///
/// A `Configuration` error is fatal to the whole process; every other
/// variant is confined to the stream (or sub-stream) it was raised on.
#[derive(Clone, Copy, PartialEq, Eq, Structural, Debug)]
pub enum DecodeError {
    /// Key material that the configuration must supply is absent.
    Configuration,
    /// A handshake message was malformed; the stream cannot be decoded.
    Handshake,
    /// A transport frame failed authenticated decryption.
    Decrypt,
    /// A negotiation line was malformed or named no known protocol.
    Negotiation,
    /// A frame header was malformed or claimed an oversized length,
    /// or a buffer outgrew its configured limit.
    Framing,
    /// A message body could not be parsed.
    Parse(ParseFault),
    /// Chunks arrived out of the order the capture layer must keep.
    Desynchronized,
}

} // verus!
