//! The fixed six-byte acknowledgement message body: message type, result
//! code, one spare byte, and a three-byte application version.

use vstd::prelude::*;

use crate::CalAmpError;
use crate::cursor::Cursor;
use crate::cursor::spec_read_u8;
use crate::message_header::MessageType;
use crate::message_header::message_type_from;
use crate::message_header::spec_message_type;

verus! {

/// The result carried by an acknowledgement.
#[derive(Clone, Copy, Debug, PartialEq, Eq, Structural)]
pub enum AcknowledgementType {
    /// Failed ACK -- authentication failure.
    FailedAuthentication,
    /// Failed ACK -- unsupported message type.
    FailedMessageType,
    /// Failed ACK -- mobile ID lookup failure.
    FailedMobileId,
    /// Failed ACK -- no reason.
    FailedNoReason,
    /// Failed ACK -- unsupported operation.
    FailedOperation,
    /// Failed ACK -- invalid or duplicate sequence number.
    FailedSequenceNumber,
    /// Failed ACK -- unable to pass to serial port.
    FailedSerialPort,
    /// Successful ACK.
    Successful,
}

/// The acknowledgement type a wire code stands for, if any: valid codes are
/// 0 to 7.
pub open spec fn spec_acknowledgement_type(b: u8) -> Option<AcknowledgementType> {
    if b == 0 {
        Some(AcknowledgementType::Successful)
    } else if b == 1 {
        Some(AcknowledgementType::FailedNoReason)
    } else if b == 2 {
        Some(AcknowledgementType::FailedMessageType)
    } else if b == 3 {
        Some(AcknowledgementType::FailedOperation)
    } else if b == 4 {
        Some(AcknowledgementType::FailedSerialPort)
    } else if b == 5 {
        Some(AcknowledgementType::FailedAuthentication)
    } else if b == 6 {
        Some(AcknowledgementType::FailedMobileId)
    } else if b == 7 {
        Some(AcknowledgementType::FailedSequenceNumber)
    } else {
        None
    }
}

/// Map a wire code to its acknowledgement type, or fail with the raw byte.
pub fn acknowledgement_type_from(b: u8) -> (r: Result<AcknowledgementType, CalAmpError>)
    ensures
        (match spec_acknowledgement_type(b) {
            Some(t) => r == Ok::<AcknowledgementType, CalAmpError>(t),
            None => r == Err::<AcknowledgementType, CalAmpError>(
                CalAmpError::AcknowledgementType(b),
            ),
        }),
{
    match b {
        0 => Ok(AcknowledgementType::Successful),
        1 => Ok(AcknowledgementType::FailedNoReason),
        2 => Ok(AcknowledgementType::FailedMessageType),
        3 => Ok(AcknowledgementType::FailedOperation),
        4 => Ok(AcknowledgementType::FailedSerialPort),
        5 => Ok(AcknowledgementType::FailedAuthentication),
        6 => Ok(AcknowledgementType::FailedMobileId),
        7 => Ok(AcknowledgementType::FailedSequenceNumber),
        _ => Err(CalAmpError::AcknowledgementType(b)),
    }
}

/// Acknowledgement message.
#[derive(Clone, Copy, Debug)]
pub struct AcknowledgementMessage {
    /// Acknowledgement type.
    pub ack: AcknowledgementType,
    /// Application version, three bytes as sent on the wire.
    pub application_version: (u8, u8, u8),
    /// Message type.
    pub message_type: MessageType,
}

/// What decoding an acknowledgement body from the front of `s` yields: the
/// message and the number of bytes consumed (always six), or the first error.
///
/// The layout is one message type byte, one acknowledgement code byte, one
/// spare byte that is read and discarded, then three application version
/// bytes.
pub open spec fn spec_parse_acknowledgement(s: Seq<u8>) -> Result<
    (AcknowledgementMessage, int),
    CalAmpError,
> {
    match spec_read_u8(s, 0) {
        Err(e) => Err(e),
        Ok((b0, i1)) => match spec_message_type(b0) {
            None => Err(CalAmpError::MessageType(b0)),
            Some(message_type) => match spec_read_u8(s, i1) {
                Err(e) => Err(e),
                Ok((b1, i2)) => match spec_acknowledgement_type(b1) {
                    None => Err(CalAmpError::AcknowledgementType(b1)),
                    Some(ack) => match spec_read_u8(s, i2) {
                        Err(e) => Err(e),
                        Ok((_spare, i3)) => match spec_read_u8(s, i3) {
                            Err(e) => Err(e),
                            Ok((v0, i4)) => match spec_read_u8(s, i4) {
                                Err(e) => Err(e),
                                Ok((v1, i5)) => match spec_read_u8(s, i5) {
                                    Err(e) => Err(e),
                                    Ok((v2, i6)) => Ok(
                                        (
                                            AcknowledgementMessage {
                                                ack,
                                                application_version: (v0, v1, v2),
                                                message_type,
                                            },
                                            i6,
                                        ),
                                    ),
                                },
                            },
                        },
                    },
                },
            },
        },
    }
}

impl AcknowledgementMessage {
    /// Parse acknowledgement data from a slice.
    ///
    /// Returns the AcknowledgementMessage and parsed byte count, which is
    /// always six; fails exactly where the specification function fails,
    /// with the same error.
    pub fn parse(slice: &[u8]) -> (res: Result<(AcknowledgementMessage, usize), CalAmpError>)
        ensures
            (match res {
                Ok((m, n)) => spec_parse_acknowledgement(slice@) == Ok::<
                    (AcknowledgementMessage, int),
                    CalAmpError,
                >((m, n as int)) && n == 6,
                Err(e) => spec_parse_acknowledgement(slice@) == Err::<
                    (AcknowledgementMessage, int),
                    CalAmpError,
                >(e),
            }),
    {
        let mut cursor = Cursor::new(slice);
        let message_type = match cursor.read_u8() {
            Ok(b) => match message_type_from(b) {
                Ok(t) => t,
                Err(e) => {
                    return Err(e);
                },
            },
            Err(e) => {
                return Err(e);
            },
        };
        let ack = match cursor.read_u8() {
            Ok(b) => match acknowledgement_type_from(b) {
                Ok(t) => t,
                Err(e) => {
                    return Err(e);
                },
            },
            Err(e) => {
                return Err(e);
            },
        };
        // spare byte, read and discarded
        match cursor.read_u8() {
            Ok(_) => (),
            Err(e) => {
                return Err(e);
            },
        };
        let v0 = match cursor.read_u8() {
            Ok(b) => b,
            Err(e) => {
                return Err(e);
            },
        };
        let v1 = match cursor.read_u8() {
            Ok(b) => b,
            Err(e) => {
                return Err(e);
            },
        };
        let v2 = match cursor.read_u8() {
            Ok(b) => b,
            Err(e) => {
                return Err(e);
            },
        };
        Ok(
            (
                AcknowledgementMessage { ack, application_version: (v0, v1, v2), message_type },
                cursor.offset(),
            ),
        )
    }
}

/// A successful decode consumes exactly six bytes, never more than the
/// buffer holds.
pub proof fn lemma_acknowledgement_consumed_bounds(s: Seq<u8>)
    requires
        spec_parse_acknowledgement(s) is Ok,
    ensures
        spec_parse_acknowledgement(s)->Ok_0.1 == 6,
        6 <= s.len(),
{
}

/// What an acknowledgement decode yields is determined by the consumed
/// prefix alone: any buffer that agrees with `s` on the consumed bytes
/// decodes to the same message, and any truncation of those bytes fails
/// with `Eos`.
pub proof fn lemma_acknowledgement_parse_local(s: Seq<u8>, t: Seq<u8>)
    requires
        spec_parse_acknowledgement(s) is Ok,
        forall|k: int|
            0 <= k < spec_parse_acknowledgement(s)->Ok_0.1 && k < t.len() ==> t[k] == s[k],
    ensures
        spec_parse_acknowledgement(s)->Ok_0.1 <= t.len() ==> spec_parse_acknowledgement(t)
            == spec_parse_acknowledgement(s),
        t.len() < spec_parse_acknowledgement(s)->Ok_0.1 ==> spec_parse_acknowledgement(t) == Err::<
            (AcknowledgementMessage, int),
            CalAmpError,
        >(CalAmpError::Eos),
{
    assert forall|k: int| 0 <= k < 6 && k < t.len() implies t[k] == s[k] by {}
}

/// Truncating a decodable buffer anywhere before its natural end makes the
/// decode fail with `Eos`: no truncation is silently misread.
pub proof fn lemma_acknowledgement_truncated_fails(s: Seq<u8>, m: int)
    requires
        spec_parse_acknowledgement(s) is Ok,
        0 <= m < spec_parse_acknowledgement(s)->Ok_0.1,
    ensures
        spec_parse_acknowledgement(s.take(m)) == Err::<(AcknowledgementMessage, int), CalAmpError>(
            CalAmpError::Eos,
        ),
{
    lemma_acknowledgement_parse_local(s, s.take(m));
}

} // verus!
