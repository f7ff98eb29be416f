//! Decoder for the binary wire format spoken by CalAmp LMU-class
//! tracking/telematics devices.
//!
//! The crate offers a bounds-checked byte cursor and three decoders built on
//! it: the fixed-layout message header, the bitmask-driven variable-length
//! options header (with its nested extension sub-block), and the
//! acknowledgement message body. Every decoder returns the structured value
//! together with the number of bytes it consumed, so a caller can advance its
//! own offset through a buffer. Each decoder's behaviour is pinned down by a
//! specification function over the byte sequence, and the executable code is
//! proved to agree with it on every input.

use vstd::prelude::*;

pub mod acknowledgement;
pub mod cursor;
pub mod message_header;
pub mod options_header;
pub mod text;

verus! {

/// Everything that can go wrong while decoding a message.
///
/// All conditions are per-message and recoverable: `Eos` means the buffer is
/// incomplete, the others mean the message is malformed at a specific field.
#[derive(Clone, Copy, Debug, PartialEq, Eq, Structural)]
pub enum CalAmpError {
    /// Unsupported acknowledgement type.
    AcknowledgementType(u8),
    /// Unsupported encryption type.
    EncryptionType(u8),
    /// Premature end of stream.
    Eos,
    /// Invalid message type.
    MessageType(u8),
    /// Option extension bit length.
    OptionExtensionBitLength(u8),
    /// Invalid service type.
    ServiceType(u8),
    /// Invalid vehicle identification number length.
    VinLength,
}

} // verus!
