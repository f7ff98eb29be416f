//! The fixed four-byte message header: service type, message type, and a
//! big-endian 16-bit sequence number.

use vstd::prelude::*;

use crate::CalAmpError;
use crate::cursor::Cursor;
use crate::cursor::spec_read_u8;
use crate::cursor::spec_read_u16_be;

verus! {

/// The service level a message asks for.
#[derive(Clone, Copy, Debug, PartialEq, Eq, Structural)]
pub enum ServiceType {
    /// Acknowledged request.
    AcknowledgedRequest,
    /// Response.
    Response,
    /// Unacknowledged request.
    UnacknowledgedRequest,
}

/// The kind of message body that follows the header.
#[derive(Clone, Copy, Debug, PartialEq, Eq, Structural)]
pub enum MessageType {
    /// ACK/NAK message.
    AckNak,
    /// Application data message.
    ApplicationData,
    /// Configuration parameter message.
    ConfigurationParameter,
    /// Event report message.
    EventReport,
    /// ID report message.
    IdReport,
    /// Locate report message.
    LocateReport,
    /// Mini event report message.
    MiniEventReport,
    /// Mini user message.
    MiniUser,
    /// Null message.
    Null,
    /// Unit request message.
    UnitRequest,
    /// User data message.
    UserData,
    /// User data with accumulators message.
    UserDataAccumulators,
}

impl ServiceType {
    /// The service type's name, as rendered to humans.
    pub open spec fn spec_name(&self) -> Seq<char> {
        match self {
            ServiceType::AcknowledgedRequest => "AcknowledgedRequest"@,
            ServiceType::Response => "Response"@,
            ServiceType::UnacknowledgedRequest => "UnacknowledgedRequest"@,
        }
    }

    /// Render the service type's name.
    pub fn name(&self) -> (s: String)
        ensures
            s@ == self.spec_name(),
    {
        match self {
            ServiceType::AcknowledgedRequest => "AcknowledgedRequest".to_owned(),
            ServiceType::Response => "Response".to_owned(),
            ServiceType::UnacknowledgedRequest => "UnacknowledgedRequest".to_owned(),
        }
    }
}

impl MessageType {
    /// The message type's name, as rendered to humans.
    pub open spec fn spec_name(&self) -> Seq<char> {
        match self {
            MessageType::AckNak => "AckNak"@,
            MessageType::ApplicationData => "ApplicationData"@,
            MessageType::ConfigurationParameter => "ConfigurationParameter"@,
            MessageType::EventReport => "EventReport"@,
            MessageType::IdReport => "IdReport"@,
            MessageType::LocateReport => "LocateReport"@,
            MessageType::MiniEventReport => "MiniEventReport"@,
            MessageType::MiniUser => "MiniUser"@,
            MessageType::Null => "Null"@,
            MessageType::UnitRequest => "UnitRequest"@,
            MessageType::UserData => "UserData"@,
            MessageType::UserDataAccumulators => "UserDataAccumulators"@,
        }
    }

    /// Render the message type's name.
    pub fn name(&self) -> (s: String)
        ensures
            s@ == self.spec_name(),
    {
        match self {
            MessageType::AckNak => "AckNak".to_owned(),
            MessageType::ApplicationData => "ApplicationData".to_owned(),
            MessageType::ConfigurationParameter => "ConfigurationParameter".to_owned(),
            MessageType::EventReport => "EventReport".to_owned(),
            MessageType::IdReport => "IdReport".to_owned(),
            MessageType::LocateReport => "LocateReport".to_owned(),
            MessageType::MiniEventReport => "MiniEventReport".to_owned(),
            MessageType::MiniUser => "MiniUser".to_owned(),
            MessageType::Null => "Null".to_owned(),
            MessageType::UnitRequest => "UnitRequest".to_owned(),
            MessageType::UserData => "UserData".to_owned(),
            MessageType::UserDataAccumulators => "UserDataAccumulators".to_owned(),
        }
    }
}

/// The service type a wire code stands for, if any: valid codes are 0 to 2.
pub open spec fn spec_service_type(b: u8) -> Option<ServiceType> {
    if b == 0 {
        Some(ServiceType::UnacknowledgedRequest)
    } else if b == 1 {
        Some(ServiceType::AcknowledgedRequest)
    } else if b == 2 {
        Some(ServiceType::Response)
    } else {
        None
    }
}

/// The message type a wire code stands for, if any: valid codes are 0 to 11.
pub open spec fn spec_message_type(b: u8) -> Option<MessageType> {
    if b == 0 {
        Some(MessageType::Null)
    } else if b == 1 {
        Some(MessageType::AckNak)
    } else if b == 2 {
        Some(MessageType::EventReport)
    } else if b == 3 {
        Some(MessageType::IdReport)
    } else if b == 4 {
        Some(MessageType::UserData)
    } else if b == 5 {
        Some(MessageType::ApplicationData)
    } else if b == 6 {
        Some(MessageType::ConfigurationParameter)
    } else if b == 7 {
        Some(MessageType::UnitRequest)
    } else if b == 8 {
        Some(MessageType::LocateReport)
    } else if b == 9 {
        Some(MessageType::UserDataAccumulators)
    } else if b == 10 {
        Some(MessageType::MiniEventReport)
    } else if b == 11 {
        Some(MessageType::MiniUser)
    } else {
        None
    }
}

/// Map a wire code to its message type, or fail with the raw byte.
pub fn message_type_from(b: u8) -> (r: Result<MessageType, CalAmpError>)
    ensures
        (match spec_message_type(b) {
            Some(t) => r == Ok::<MessageType, CalAmpError>(t),
            None => r == Err::<MessageType, CalAmpError>(CalAmpError::MessageType(b)),
        }),
{
    match b {
        0 => Ok(MessageType::Null),
        1 => Ok(MessageType::AckNak),
        2 => Ok(MessageType::EventReport),
        3 => Ok(MessageType::IdReport),
        4 => Ok(MessageType::UserData),
        5 => Ok(MessageType::ApplicationData),
        6 => Ok(MessageType::ConfigurationParameter),
        7 => Ok(MessageType::UnitRequest),
        8 => Ok(MessageType::LocateReport),
        9 => Ok(MessageType::UserDataAccumulators),
        10 => Ok(MessageType::MiniEventReport),
        11 => Ok(MessageType::MiniUser),
        _ => Err(CalAmpError::MessageType(b)),
    }
}

/// Map a wire code to its service type, or fail with the raw byte.
pub fn service_type_from(b: u8) -> (r: Result<ServiceType, CalAmpError>)
    ensures
        (match spec_service_type(b) {
            Some(t) => r == Ok::<ServiceType, CalAmpError>(t),
            None => r == Err::<ServiceType, CalAmpError>(CalAmpError::ServiceType(b)),
        }),
{
    match b {
        0 => Ok(ServiceType::UnacknowledgedRequest),
        1 => Ok(ServiceType::AcknowledgedRequest),
        2 => Ok(ServiceType::Response),
        _ => Err(CalAmpError::ServiceType(b)),
    }
}

/// The fixed message header that precedes every message body.
#[derive(Clone, Copy, Debug)]
pub struct MessageHeader {
    /// Message type.
    pub message_type: MessageType,
    /// Sequence number.
    pub sequence_number: u16,
    /// Service type.
    pub service_type: ServiceType,
}

/// What decoding a message header from the front of `s` yields: the header
/// and the number of bytes consumed (always four), or the first error.
///
/// The layout is one service type byte, one message type byte, then a
/// big-endian 16-bit sequence number.
pub open spec fn spec_parse_message_header(s: Seq<u8>) -> Result<(MessageHeader, int), CalAmpError> {
    match spec_read_u8(s, 0) {
        Err(e) => Err(e),
        Ok((b0, i1)) => match spec_service_type(b0) {
            None => Err(CalAmpError::ServiceType(b0)),
            Some(service_type) => match spec_read_u8(s, i1) {
                Err(e) => Err(e),
                Ok((b1, i2)) => match spec_message_type(b1) {
                    None => Err(CalAmpError::MessageType(b1)),
                    Some(message_type) => match spec_read_u16_be(s, i2) {
                        Err(e) => Err(e),
                        Ok((sequence_number, i3)) => Ok(
                            (MessageHeader { message_type, sequence_number, service_type }, i3),
                        ),
                    },
                },
            },
        },
    }
}

impl MessageHeader {
    /// Create a new MessageHeader.
    pub fn new(service_type: ServiceType, message_type: MessageType, sequence_number: u16) -> (h:
        MessageHeader)
        ensures
            h.service_type == service_type,
            h.message_type == message_type,
            h.sequence_number == sequence_number,
    {
        MessageHeader { message_type, sequence_number, service_type }
    }

    /// Parse message header data from a slice.
    ///
    /// Returns the MessageHeader and parsed byte count, which is always four;
    /// fails exactly where the specification function fails, with the same
    /// error.
    pub fn parse(slice: &[u8]) -> (res: Result<(MessageHeader, usize), CalAmpError>)
        ensures
            (match res {
                Ok((h, n)) => spec_parse_message_header(slice@) == Ok::<
                    (MessageHeader, int),
                    CalAmpError,
                >((h, n as int)) && n == 4,
                Err(e) => spec_parse_message_header(slice@) == Err::<
                    (MessageHeader, int),
                    CalAmpError,
                >(e),
            }),
    {
        let mut cursor = Cursor::new(slice);
        let service_type = match cursor.read_u8() {
            Ok(b) => match service_type_from(b) {
                Ok(t) => t,
                Err(e) => {
                    return Err(e);
                },
            },
            Err(e) => {
                return Err(e);
            },
        };
        let message_type = match cursor.read_u8() {
            Ok(b) => match message_type_from(b) {
                Ok(t) => t,
                Err(e) => {
                    return Err(e);
                },
            },
            Err(e) => {
                return Err(e);
            },
        };
        let sequence_number = match cursor.read_u16_be() {
            Ok(v) => v,
            Err(e) => {
                return Err(e);
            },
        };
        Ok((MessageHeader { message_type, sequence_number, service_type }, cursor.offset()))
    }

    /// Retrieve the message type.
    pub fn message_type(&self) -> (t: &MessageType)
        ensures
            *t == self.message_type,
    {
        &self.message_type
    }

    /// Retrieve the sequence number.
    pub fn sequence_number(&self) -> (n: u16)
        ensures
            n == self.sequence_number,
    {
        self.sequence_number
    }

    /// Retrieve the service type.
    pub fn service_type(&self) -> (t: &ServiceType)
        ensures
            *t == self.service_type,
    {
        &self.service_type
    }
}

/// A successful decode consumes exactly four bytes, never more than the
/// buffer holds.
pub proof fn lemma_message_header_consumed_bounds(s: Seq<u8>)
    requires
        spec_parse_message_header(s) is Ok,
    ensures
        spec_parse_message_header(s)->Ok_0.1 == 4,
        4 <= s.len(),
{
}

/// What a message header decode yields is determined by the consumed prefix
/// alone: any buffer that agrees with `s` on the consumed bytes decodes to
/// the same header, and any truncation of those bytes fails with `Eos`.
pub proof fn lemma_message_header_parse_local(s: Seq<u8>, t: Seq<u8>)
    requires
        spec_parse_message_header(s) is Ok,
        forall|k: int|
            0 <= k < spec_parse_message_header(s)->Ok_0.1 && k < t.len() ==> t[k] == s[k],
    ensures
        spec_parse_message_header(s)->Ok_0.1 <= t.len() ==> spec_parse_message_header(t)
            == spec_parse_message_header(s),
        t.len() < spec_parse_message_header(s)->Ok_0.1 ==> spec_parse_message_header(t) == Err::<
            (MessageHeader, int),
            CalAmpError,
        >(CalAmpError::Eos),
{
    if t.len() >= 4 {
        assert(t[0] == s[0]);
        assert(t[1] == s[1]);
        assert(t[2] == s[2]);
        assert(t[3] == s[3]);
    } else {
        if t.len() > 0 {
            assert(t[0] == s[0]);
        }
        if t.len() > 1 {
            assert(t[1] == s[1]);
        }
        if t.len() > 2 {
            assert(t[2] == s[2]);
        }
    }
}

/// Truncating a decodable buffer anywhere before its natural end makes the
/// decode fail with `Eos`: no truncation is silently misread.
pub proof fn lemma_message_header_truncated_fails(s: Seq<u8>, m: int)
    requires
        spec_parse_message_header(s) is Ok,
        0 <= m < spec_parse_message_header(s)->Ok_0.1,
    ensures
        spec_parse_message_header(s.take(m)) == Err::<(MessageHeader, int), CalAmpError>(
            CalAmpError::Eos,
        ),
{
    lemma_message_header_parse_local(s, s.take(m));
}

} // verus!

