use calamp::CalAmpError;
use calamp::message_header::MessageHeader;
use calamp::message_header::MessageType;
use calamp::message_header::ServiceType;

#[test]
fn message_header_basic() {
    let bytes = [0x01u8, 0x01, 0x00, 0x05];
    let (header, consumed) = MessageHeader::parse(&bytes).unwrap();
    assert_eq!(*header.service_type(), ServiceType::AcknowledgedRequest);
    assert_eq!(*header.message_type(), MessageType::AckNak);
    assert_eq!(header.sequence_number(), 5);
    assert_eq!(consumed, 4);
}

#[test]
fn message_header_all_service_types() {
    for (code, expected) in [
        (0u8, ServiceType::UnacknowledgedRequest),
        (1u8, ServiceType::AcknowledgedRequest),
        (2u8, ServiceType::Response),
    ] {
        let bytes = [code, 0x00, 0x12, 0x34];
        let (header, consumed) = MessageHeader::parse(&bytes).unwrap();
        assert_eq!(*header.service_type(), expected);
        assert_eq!(*header.message_type(), MessageType::Null);
        assert_eq!(header.sequence_number(), 0x1234);
        assert_eq!(consumed, 4);
    }
}

#[test]
fn message_header_all_message_types() {
    let expected = [
        MessageType::Null,
        MessageType::AckNak,
        MessageType::EventReport,
        MessageType::IdReport,
        MessageType::UserData,
        MessageType::ApplicationData,
        MessageType::ConfigurationParameter,
        MessageType::UnitRequest,
        MessageType::LocateReport,
        MessageType::UserDataAccumulators,
        MessageType::MiniEventReport,
        MessageType::MiniUser,
    ];
    for (code, want) in expected.iter().enumerate() {
        let bytes = [0x00, code as u8, 0x00, 0x00];
        let (header, _) = MessageHeader::parse(&bytes).unwrap();
        assert_eq!(*header.message_type(), *want);
    }
}

#[test]
fn message_header_invalid_service_type() {
    let bytes = [0x03u8, 0x01, 0x00, 0x05];
    let err = MessageHeader::parse(&bytes).unwrap_err();
    assert_eq!(err, CalAmpError::ServiceType(3));
}

#[test]
fn message_header_invalid_message_type() {
    let bytes = [0x01u8, 0x0C, 0x00, 0x05];
    let err = MessageHeader::parse(&bytes).unwrap_err();
    assert_eq!(err, CalAmpError::MessageType(12));
}

#[test]
fn message_header_truncated_fails_eos() {
    let bytes = [0x01u8, 0x01, 0x00, 0x05];
    for cut in 0..4 {
        let err = MessageHeader::parse(&bytes[..cut]).unwrap_err();
        assert_eq!(err, CalAmpError::Eos);
    }
}

#[test]
fn message_header_ignores_trailing_bytes() {
    let bytes = [0x02u8, 0x02, 0xAB, 0xCD, 0xFF, 0xFF, 0xFF];
    let (header, consumed) = MessageHeader::parse(&bytes).unwrap();
    assert_eq!(*header.service_type(), ServiceType::Response);
    assert_eq!(*header.message_type(), MessageType::EventReport);
    assert_eq!(header.sequence_number(), 0xABCD);
    assert_eq!(consumed, 4);
}

#[test]
fn type_names_render() {
    assert_eq!(MessageType::AckNak.name(), "AckNak");
    assert_eq!(MessageType::UserDataAccumulators.name(), "UserDataAccumulators");
    assert_eq!(MessageType::MiniEventReport.name(), "MiniEventReport");
    assert_eq!(ServiceType::UnacknowledgedRequest.name(), "UnacknowledgedRequest");
    assert_eq!(ServiceType::Response.name(), "Response");
}

#[test]
fn message_header_new_keeps_fields() {
    let header = MessageHeader::new(ServiceType::Response, MessageType::IdReport, 77);
    assert_eq!(*header.service_type(), ServiceType::Response);
    assert_eq!(*header.message_type(), MessageType::IdReport);
    assert_eq!(header.sequence_number(), 77);
}
