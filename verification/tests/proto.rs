use capsudo::proto::{
    decode_message, FieldType, Header, Message, ProtoError, SessionType, MAX_PAYLOAD,
};

#[test]
fn field_type_roundtrips_through_u8() {
    for ft in [
        FieldType::Arg,
        FieldType::Env,
        FieldType::Exit,
        FieldType::Fd,
        FieldType::SessionType,
        FieldType::Error,
        FieldType::Secret,
        FieldType::Unauthorized,
        FieldType::Winsize,
        FieldType::End,
    ] {
        assert_eq!(FieldType::try_from(ft.as_u8()).unwrap(), ft);
    }
}

#[test]
fn unknown_field_type_is_rejected() {
    assert!(matches!(
        FieldType::try_from(99),
        Err(ProtoError::UnknownFieldType(99))
    ));
}

#[test]
fn header_encode_decode_roundtrip() {
    let hdr = Header {
        field_type: FieldType::Arg,
        len: 0x0001_0203,
    };
    let bytes = hdr.encode();
    // Explicit little-endian layout, independent of host byte order.
    assert_eq!(bytes, [1, 0x03, 0x02, 0x01, 0x00]);
    assert_eq!(Header::decode(&bytes).unwrap(), hdr);
}

#[test]
fn header_rejects_oversize_payload() {
    let mut bytes = Header {
        field_type: FieldType::Arg,
        len: 0,
    }
    .encode();
    bytes[1..5].copy_from_slice(&((MAX_PAYLOAD as u32) + 1).to_le_bytes());
    assert!(matches!(
        Header::decode(&bytes),
        Err(ProtoError::PayloadTooLarge(_))
    ));
}

#[test]
fn message_encode_prefixes_header() {
    let msg = Message::arg("ls");
    let encoded = msg.encode();
    assert_eq!(encoded[0], FieldType::Arg.as_u8());
    assert_eq!(&encoded[1..5], &2u32.to_le_bytes());
    assert_eq!(&encoded[5..], b"ls");
}

#[test]
fn typed_accessors() {
    assert_eq!(Message::arg("hello").as_str().unwrap(), "hello");
    assert_eq!(Message::exit(-5).as_i32().unwrap(), -5);
    assert_eq!(Message::exit(42).as_i32().unwrap(), 42);
    assert_eq!(Message::fds(3).as_u32().unwrap(), 3);
    assert_eq!(
        Message::session_type(SessionType::Interactive)
            .as_session_type()
            .unwrap(),
        SessionType::Interactive
    );
}

#[test]
fn winsize_roundtrip() {
    let msg = Message::winsize([24, 80, 640, 480]);
    assert_eq!(msg.field_type(), FieldType::Winsize);
    assert_eq!(msg.as_winsize().unwrap(), [24, 80, 640, 480]);
}

#[test]
fn exit_code_is_little_endian() {
    assert_eq!(Message::exit(1).payload(), &[1, 0, 0, 0]);
}

#[test]
fn as_i32_rejects_wrong_length() {
    assert!(Message::arg("xx").as_i32().is_err());
}

#[test]
fn end_has_empty_payload() {
    assert!(Message::end().payload().is_empty());
    assert_eq!(Message::end().field_type(), FieldType::End);
}

#[test]
fn field_type_bytes_are_fixed() {
    assert_eq!(FieldType::Arg.as_u8(), 1);
    for b in 0..=255u8 {
        if let Ok(t) = FieldType::try_from(b) {
            assert_eq!(t.as_u8(), b);
            assert_eq!(format!("{:?}", t), t.name());
        }
    }
}

#[test]
fn session_types_roundtrip_and_default_to_auto() {
    for t in [
        SessionType::Auto,
        SessionType::Interactive,
        SessionType::NonInteractive,
    ] {
        assert_eq!(SessionType::try_from(t.as_u8()).unwrap(), t);
    }
    assert_eq!(SessionType::default(), SessionType::Auto);
    assert!(matches!(
        SessionType::try_from(77),
        Err(ProtoError::InvalidSessionType(77))
    ));
}

#[test]
fn largest_payload_is_accepted() {
    let mut bytes = Header {
        field_type: FieldType::Secret,
        len: 0,
    }
    .encode();
    bytes[1..5].copy_from_slice(&(MAX_PAYLOAD as u32).to_le_bytes());
    assert_eq!(Header::decode(&bytes).unwrap().len as usize, MAX_PAYLOAD);
}

#[test]
fn unknown_type_is_reported_before_the_length() {
    assert!(matches!(
        Header::decode(&[99, 255, 255, 255, 255]),
        Err(ProtoError::UnknownFieldType(99))
    ));
}

#[test]
fn text_that_is_not_utf8_is_rejected() {
    let m = Message::new(FieldType::Arg, vec![0xff, 0xfe]);
    let e = m.as_str().unwrap_err();
    assert!(matches!(
        e,
        ProtoError::InvalidPayload {
            field_type: FieldType::Arg,
            reason: "expected UTF-8 text"
        }
    ));
    let m = Message::new(FieldType::Arg, "grüße".as_bytes().to_vec());
    assert_eq!(m.as_str().unwrap(), "grüße");
}

#[test]
fn accessors_reject_other_payloads() {
    assert!(Message::end().as_u32().is_err());
    assert!(Message::exit(0).as_winsize().is_err());
    assert!(Message::end().as_session_type().is_err());
    assert!(matches!(
        Message::new(FieldType::SessionType, vec![9]).as_session_type(),
        Err(ProtoError::InvalidSessionType(9))
    ));
}

#[test]
fn decode_takes_exactly_one_message() {
    let m = Message::env("A=b");
    let mut bytes = m.encode();
    assert!(decode_message(&bytes).unwrap() == m);
    bytes.push(0);
    assert!(decode_message(&bytes).is_none());
    bytes.truncate(bytes.len() - 2);
    assert!(decode_message(&bytes).is_none());
    assert!(decode_message(&[1, 0]).is_none());
    assert!(decode_message(&[99, 0, 0, 0, 0]).is_none());
}

#[test]
fn payloads_come_out_unchanged() {
    let m = Message::secret(b"hunter2");
    assert_eq!(m.field_type(), FieldType::Secret);
    assert_eq!(m.payload(), b"hunter2");
    assert!(m.clone() == m);
    assert!(m != Message::secret(b"hunter3"));
    assert_eq!(m.header().len, 7);
    assert_eq!(m.into_payload(), b"hunter2".to_vec());
    assert_eq!(Message::error("no").field_type(), FieldType::Error);
    assert_eq!(
        Message::unauthorized("who?").field_type(),
        FieldType::Unauthorized
    );
}

#[test]
fn descriptions_show_no_contents() {
    assert_eq!(
        Message::secret(b"hunter2").describe(),
        "Message { field_type: Secret, len: 7 }"
    );
    assert_eq!(
        Message::end().describe(),
        "Message { field_type: End, len: 0 }"
    );
}

#[test]
fn protocol_errors_have_words() {
    assert_eq!(
        ProtoError::UnknownFieldType(99).message(),
        "unknown field type byte: 99"
    );
    assert_eq!(
        FieldType::try_from(200).unwrap_err().message(),
        "unknown field type byte: 200"
    );
    let e = Message::arg("xx").as_i32().unwrap_err();
    assert!(e.message().contains("expected 4-byte integer"));
    assert!(e.message().contains("Arg"));
}

#[test]
fn bytes_of_a_message_are_its_only_form() {
    let bytes = [1, 2, 0, 0, 0, b'l', b's'];
    let m = decode_message(&bytes).unwrap();
    assert!(m == Message::arg("ls"));
    assert_eq!(m.encode(), bytes.to_vec());
}

#[test]
fn messages_show_where_they_end() {
    let mut a = Message::arg("l").encode();
    a.push(b's');
    let b = Message::arg("ls").encode();
    assert_eq!(a.len(), b.len());
    assert_ne!(a, b);
    assert!(decode_message(&a).is_none());
}

#[test]
fn dimensions_that_were_read_make_the_same_payload() {
    let m = Message::new(FieldType::Winsize, vec![1, 2, 3, 4, 5, 6, 7, 255]);
    let dims = m.as_winsize().unwrap();
    assert_eq!(dims, [0x0201, 0x0403, 0x0605, 0xff07]);
    assert!(Message::winsize(dims) == m);
}
