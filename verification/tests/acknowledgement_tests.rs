use calamp::CalAmpError;
use calamp::acknowledgement::AcknowledgementMessage;
use calamp::acknowledgement::AcknowledgementType;
use calamp::message_header::MessageType;

#[test]
fn acknowledgement_basic() {
    let bytes = [0x01u8, 0x00, 0x00, 0x01, 0x02, 0x03];
    let (message, consumed) = AcknowledgementMessage::parse(&bytes).unwrap();
    assert_eq!(message.message_type, MessageType::AckNak);
    assert_eq!(message.ack, AcknowledgementType::Successful);
    assert_eq!(message.application_version, (1, 2, 3));
    assert_eq!(consumed, 6);
}

#[test]
fn acknowledgement_all_ack_types() {
    let expected = [
        AcknowledgementType::Successful,
        AcknowledgementType::FailedNoReason,
        AcknowledgementType::FailedMessageType,
        AcknowledgementType::FailedOperation,
        AcknowledgementType::FailedSerialPort,
        AcknowledgementType::FailedAuthentication,
        AcknowledgementType::FailedMobileId,
        AcknowledgementType::FailedSequenceNumber,
    ];
    for (code, want) in expected.iter().enumerate() {
        let bytes = [0x01, code as u8, 0xFF, 0x00, 0x00, 0x00];
        let (message, consumed) = AcknowledgementMessage::parse(&bytes).unwrap();
        assert_eq!(message.ack, *want);
        assert_eq!(consumed, 6);
    }
}

#[test]
fn acknowledgement_spare_byte_ignored() {
    let a = [0x01u8, 0x00, 0x00, 0x09, 0x08, 0x07];
    let b = [0x01u8, 0x00, 0xEE, 0x09, 0x08, 0x07];
    let (ma, _) = AcknowledgementMessage::parse(&a).unwrap();
    let (mb, _) = AcknowledgementMessage::parse(&b).unwrap();
    assert_eq!(ma.ack, mb.ack);
    assert_eq!(ma.message_type, mb.message_type);
    assert_eq!(ma.application_version, mb.application_version);
}

#[test]
fn acknowledgement_invalid_message_type() {
    let bytes = [0x0Du8, 0x00, 0x00, 0x01, 0x02, 0x03];
    let err = AcknowledgementMessage::parse(&bytes).unwrap_err();
    assert_eq!(err, CalAmpError::MessageType(13));
}

#[test]
fn acknowledgement_invalid_ack_type() {
    let bytes = [0x01u8, 0x08, 0x00, 0x01, 0x02, 0x03];
    let err = AcknowledgementMessage::parse(&bytes).unwrap_err();
    assert_eq!(err, CalAmpError::AcknowledgementType(8));
}

#[test]
fn acknowledgement_truncated_fails_eos() {
    let bytes = [0x01u8, 0x00, 0x00, 0x01, 0x02, 0x03];
    for cut in 0..6 {
        let err = AcknowledgementMessage::parse(&bytes[..cut]).unwrap_err();
        assert_eq!(err, CalAmpError::Eos);
    }
}

#[test]
fn acknowledgement_ignores_trailing_bytes() {
    let bytes = [0x02u8, 0x01, 0x55, 0x04, 0x05, 0x06, 0xAA, 0xBB];
    let (message, consumed) = AcknowledgementMessage::parse(&bytes).unwrap();
    assert_eq!(message.message_type, MessageType::EventReport);
    assert_eq!(message.ack, AcknowledgementType::FailedNoReason);
    assert_eq!(message.application_version, (4, 5, 6));
    assert_eq!(consumed, 6);
}
