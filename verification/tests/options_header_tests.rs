use calamp::CalAmpError;
use calamp::options_header::ForwardingOperationType;
use calamp::options_header::ForwardingProtocol;
use calamp::options_header::MobileId;
use calamp::options_header::OptionsHeader;

/// A message that exercises every sub-record: mobile id with type,
/// authentication, routing, forwarding, redirection, and an extension with
/// ESN, VIN and encryption service. 54 bytes in all.
fn full_options_message() -> Vec<u8> {
    let mut bytes = vec![
        0xFFu8, // flags: present + all seven sub-record bits
        0x01, 0x12, 0x01, 0x01, // mobile id: len 1, byte 0x12, type-len 1, type 1 (ESN)
        0x02, 0xAA, 0xBB, // authentication: len 2
        0x01, 0xCC, // routing: len 1
        0x08, 192, 168, 0, 1, 0x1F, 0x90, 17, 1, // forwarding: ip, port 8080, UDP, proxy
        10, 0, 0, 1, 0x00, 0x50, // redirection: ip, port 80
        0x01, 0x07, // extension: len 1, flags ESN+VIN+encryption
        0x02, 0x01, 0x23, // extension ESN: len 2, bytes 01 23
        17,
    ];
    bytes.extend_from_slice(b"1HGCM82633A004352"); // VIN, exactly 17 bytes
    bytes.extend_from_slice(&[0x05, 0x02, 9, 8, 7, 6]); // encryption: len, type 2, key
    bytes
}

#[test]
fn options_absent() {
    let bytes = [0x00u8];
    let (header, consumed) = OptionsHeader::parse(&bytes).unwrap();
    assert_eq!(consumed, 1);
    assert!(header.authentication().is_none());
    assert!(header.extension().is_none());
    assert!(header.forwarding().is_none());
    assert!(header.mobile_id().is_none());
    assert!(header.redirection().is_none());
    assert!(header.routing().is_none());
}

#[test]
fn options_absent_when_presence_bit_clear() {
    // low flag bits without the most significant bit: structurally absent,
    // exactly one byte consumed, the rest untouched
    let bytes = [0x03u8, 0x04, 0x01, 0x23, 0x45, 0x67, 0x01, 0x01];
    let (header, consumed) = OptionsHeader::parse(&bytes).unwrap();
    assert_eq!(consumed, 1);
    assert!(header.mobile_id().is_none());
}

#[test]
fn mobile_id_esn() {
    // presence bit + mobile id and type bits; id length 4, id bytes
    // 01 23 45 67; type-length 1, type 1 = ESN
    let bytes = [0x83u8, 0x04, 0x01, 0x23, 0x45, 0x67, 0x01, 0x01];
    let (header, consumed) = OptionsHeader::parse(&bytes).unwrap();
    assert_eq!(consumed, 8);
    match header.mobile_id() {
        Some(MobileId::Esn(esn)) => assert_eq!(esn, "01234567"),
        other => panic!("expected an ESN mobile id, got {:?}", other),
    }
}

#[test]
fn mobile_id_esn_nibbles_above_nine() {
    // nibbles are not validated as decimal digits: 0xAB expands to the two
    // ASCII characters directly after '9'
    let bytes = [0x83u8, 0x01, 0xAB, 0x01, 0x01];
    let (header, consumed) = OptionsHeader::parse(&bytes).unwrap();
    assert_eq!(consumed, 5);
    match header.mobile_id() {
        Some(MobileId::Esn(esn)) => assert_eq!(esn, ":;"),
        other => panic!("expected an ESN mobile id, got {:?}", other),
    }
}

#[test]
fn mobile_id_without_type_bit() {
    let bytes = [0x81u8, 0x02, 0x12, 0x34];
    let (header, consumed) = OptionsHeader::parse(&bytes).unwrap();
    assert_eq!(consumed, 4);
    assert!(header.mobile_id().is_none());
}

#[test]
fn mobile_id_zero_length() {
    // a zero id length ends the sub-record at once, even with the type bit set
    let bytes = [0x83u8, 0x00];
    let (header, consumed) = OptionsHeader::parse(&bytes).unwrap();
    assert_eq!(consumed, 2);
    assert!(header.mobile_id().is_none());
}

#[test]
fn mobile_id_non_esn_type() {
    // type 2 (IMEI/EID) reads the type byte but yields no id
    let bytes = [0x83u8, 0x01, 0x12, 0x01, 0x02];
    let (header, consumed) = OptionsHeader::parse(&bytes).unwrap();
    assert_eq!(consumed, 5);
    assert!(header.mobile_id().is_none());
}

#[test]
fn full_options() {
    let bytes = full_options_message();
    let (header, consumed) = OptionsHeader::parse(&bytes).unwrap();
    assert_eq!(consumed, 54);
    match header.mobile_id() {
        Some(MobileId::Esn(esn)) => assert_eq!(esn, "12"),
        other => panic!("expected an ESN mobile id, got {:?}", other),
    }
    assert_eq!(header.authentication, Some(vec![0xAA, 0xBB]));
    assert_eq!(header.routing, Some(vec![0xCC]));
    assert_eq!(
        header.forwarding,
        Some((
            "192.168.0.1".to_string(),
            8080,
            ForwardingProtocol::Udp,
            ForwardingOperationType::Proxy
        ))
    );
    assert_eq!(header.redirection, Some(("10.0.0.1".to_string(), 80)));
    let extension = header.extension().as_ref().unwrap();
    assert_eq!(extension.esn(), &Some("0123".to_string()));
    assert_eq!(extension.vin(), &Some("1HGCM82633A004352".to_string()));
    assert_eq!(extension.encryption_service(), &Some((9, 8, 7, 6)));
}

#[test]
fn forwarding_zero_length() {
    let bytes = [0x90u8, 0x00];
    let (header, consumed) = OptionsHeader::parse(&bytes).unwrap();
    assert_eq!(consumed, 2);
    assert!(header.forwarding().is_none());
}

#[test]
fn forwarding_tcp_and_lookup() {
    // protocol byte other than 17 is TCP; operation byte other than 0 or 1
    // is forward-with-lookup
    let bytes = [0x90u8, 0x08, 1, 2, 3, 4, 0x00, 0x19, 6, 9];
    let (header, consumed) = OptionsHeader::parse(&bytes).unwrap();
    assert_eq!(consumed, 10);
    assert_eq!(
        header.forwarding,
        Some((
            "1.2.3.4".to_string(),
            25,
            ForwardingProtocol::Tcp,
            ForwardingOperationType::ForwardLookup
        ))
    );
}

#[test]
fn authentication_zero_length() {
    let bytes = [0x84u8, 0x00];
    let (header, consumed) = OptionsHeader::parse(&bytes).unwrap();
    assert_eq!(consumed, 2);
    assert!(header.authentication().is_none());
}

#[test]
fn redirection_fixed_width() {
    // redirection has no length prefix: always four octets and a port
    let bytes = [0xA0u8, 10, 0, 0, 1, 0x1F, 0x90];
    let (header, consumed) = OptionsHeader::parse(&bytes).unwrap();
    assert_eq!(consumed, 7);
    assert_eq!(header.redirection, Some(("10.0.0.1".to_string(), 8080)));
}

#[test]
fn extension_vin_length_violation() {
    // VIN length byte must be exactly 17; 16 fails at once
    let bytes = [0xC0u8, 0x01, 0x02, 0x10, 0x41, 0x41];
    let err = OptionsHeader::parse(&bytes).unwrap_err();
    assert_eq!(err, CalAmpError::VinLength);
}

#[test]
fn extension_length_invalid() {
    let bytes = [0xC0u8, 0x02, 0x00];
    let err = OptionsHeader::parse(&bytes).unwrap_err();
    assert_eq!(err, CalAmpError::OptionExtensionBitLength(2));
}

#[test]
fn extension_encryption_type_invalid() {
    let bytes = [0xC0u8, 0x01, 0x04, 0x00, 0x04, 1, 2, 3, 4];
    let err = OptionsHeader::parse(&bytes).unwrap_err();
    assert_eq!(err, CalAmpError::EncryptionType(4));
}

#[test]
fn extension_encryption_valid() {
    let bytes = [0xC0u8, 0x01, 0x04, 0x00, 0x02, 9, 8, 7, 6];
    let (header, consumed) = OptionsHeader::parse(&bytes).unwrap();
    assert_eq!(consumed, 9);
    let extension = header.extension().as_ref().unwrap();
    assert_eq!(extension.encryption_service(), &Some((9, 8, 7, 6)));
    assert_eq!(extension.esn(), &None);
    assert_eq!(extension.vin(), &None);
}

#[test]
fn extension_esn_zero_length() {
    // a zero-length extension ESN is present but empty
    let bytes = [0xC0u8, 0x01, 0x01, 0x00];
    let (header, consumed) = OptionsHeader::parse(&bytes).unwrap();
    assert_eq!(consumed, 4);
    let extension = header.extension().as_ref().unwrap();
    assert_eq!(extension.esn(), &Some(String::new()));
}

#[test]
fn options_truncated_fails_eos() {
    let bytes = full_options_message();
    for cut in 0..bytes.len() {
        let err = OptionsHeader::parse(&bytes[..cut]).unwrap_err();
        assert_eq!(err, CalAmpError::Eos, "truncation at {} must fail with Eos", cut);
    }
}

#[test]
fn options_ignores_trailing_bytes() {
    let mut bytes = full_options_message();
    bytes.extend_from_slice(&[0xDE, 0xAD, 0xBE, 0xEF]);
    let (header, consumed) = OptionsHeader::parse(&bytes).unwrap();
    assert_eq!(consumed, 54);
    assert_eq!(header.authentication, Some(vec![0xAA, 0xBB]));
}

#[test]
fn forwarding_names_render() {
    assert_eq!(ForwardingProtocol::Tcp.name(), "TCP");
    assert_eq!(ForwardingProtocol::Udp.name(), "UDP");
    assert_eq!(ForwardingOperationType::Forward.name(), "Forward");
    assert_eq!(ForwardingOperationType::ForwardLookup.name(), "ForwardLookup");
    assert_eq!(ForwardingOperationType::Proxy.name(), "Proxy");
}

#[test]
fn mobile_id_renders_as_text() {
    assert_eq!(MobileId::Esn("01234567".to_string()).display_string(), "01234567");
    assert_eq!(MobileId::Phone("5551212".to_string()).display_string(), "5551212");
    assert_eq!(MobileId::User(vec![1, 2, 30]).display_string(), "[1, 2, 30]");
    assert_eq!(MobileId::User(vec![]).display_string(), "[]");
    assert_eq!(MobileId::User(vec![255]).display_string(), "[255]");
}

#[test]
fn options_then_message_header_compose() {
    // a decoder reports exactly the bytes it consumed; the next decoder
    // picks up at that offset independently
    let mut bytes = full_options_message();
    bytes.extend_from_slice(&[0x01, 0x02, 0x00, 0x2A]);
    let (_, consumed) = OptionsHeader::parse(&bytes).unwrap();
    assert_eq!(consumed, 54);
    let (header, header_consumed) =
        calamp::message_header::MessageHeader::parse(&bytes[consumed..]).unwrap();
    assert_eq!(header_consumed, 4);
    assert_eq!(
        *header.message_type(),
        calamp::message_header::MessageType::EventReport
    );
    assert_eq!(header.sequence_number(), 42);
}
