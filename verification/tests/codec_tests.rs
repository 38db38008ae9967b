use brain::proto::{
    create_hello_msg, encoding_code, msg_type_code, prepend_header, shader_code, write_bool,
    write_bytes, write_hello_msg, write_str, write_str_opt, BrainHello, Encoding, Header,
    MessageType, Ping, ProtoError, ShaderType, UseFirmware, VecWriter,
};

fn header(id: i16, frame_size: i16, msg_size: i32, frame_offset: i32) -> Header {
    Header { id, frame_size, msg_size, frame_offset }
}

#[test]
fn header_encodes_big_endian() {
    let h = header(0x0102, 0x0304, 0x05060708, 0x090A0B0C);
    assert_eq!(h.to_bytes(), [1, 2, 3, 4, 5, 6, 7, 8, 9, 10, 11, 12]);
}

#[test]
fn header_encodes_negative_fields() {
    let h = header(-1, -2, -3, -4);
    assert_eq!(
        h.to_bytes(),
        [0xFF, 0xFF, 0xFF, 0xFE, 0xFF, 0xFF, 0xFF, 0xFD, 0xFF, 0xFF, 0xFF, 0xFC]
    );
}

#[test]
fn header_round_trips() {
    for h in [
        header(0, 0, 0, 0),
        header(1, 2, 3, 4),
        header(-1, -2, -3, -4),
        header(i16::MAX, i16::MIN, i32::MAX, i32::MIN),
        header(0x1234, 1400, 100_000, 98_600),
    ] {
        let bytes = h.to_bytes();
        let back = Header::from_reader(&bytes).unwrap();
        assert_eq!(back, h);
    }
}

#[test]
fn header_decode_ignores_trailing_payload() {
    let h = header(7, 3, 3, 0);
    let mut bytes = h.to_bytes().to_vec();
    bytes.extend_from_slice(&[9, 9, 9]);
    assert_eq!(Header::from_reader(&bytes).unwrap(), h);
}

#[test]
fn header_decode_fails_when_truncated() {
    let bytes = [0u8; 11];
    assert_eq!(Header::from_reader(&bytes), Err(ProtoError::TruncatedInput));
    assert_eq!(Header::from_reader(&[]), Err(ProtoError::TruncatedInput));
}

#[test]
fn from_payload_spans_whole_message() {
    let h = Header::from_payload(9, &[1, 2, 3, 4, 5]);
    assert_eq!(h, header(9, 5, 5, 0));
}

#[test]
fn prepend_header_frames_payload() {
    let framed = prepend_header(7, vec![1, 2, 3]);
    assert_eq!(framed, vec![0, 7, 0, 3, 0, 0, 0, 3, 0, 0, 0, 0, 1, 2, 3]);
}

#[test]
fn write_bool_is_one_byte() {
    let mut w = VecWriter::new();
    write_bool(&mut w, true);
    write_bool(&mut w, false);
    assert_eq!(w.buffer, vec![1, 0]);
}

#[test]
fn write_bytes_is_length_prefixed() {
    let mut w = VecWriter::new();
    write_bytes(&mut w, &[9, 8]);
    assert_eq!(w.buffer, vec![0, 0, 0, 2, 9, 8]);
}

#[test]
fn write_str_is_length_prefixed_utf8() {
    let mut w = VecWriter::new();
    write_str(&mut w, "AB");
    assert_eq!(w.buffer, vec![0, 0, 0, 2, 65, 66]);
}

#[test]
fn write_str_opt_has_presence_byte() {
    let mut w = VecWriter::new();
    write_str_opt(&mut w, None);
    assert_eq!(w.buffer, vec![0]);
    let mut w2 = VecWriter::new();
    write_str_opt(&mut w2, Some("A"));
    assert_eq!(w2.buffer, vec![1, 0, 0, 0, 1, 65]);
}

#[test]
fn hello_msg_has_no_optional_strings() {
    let mut w = VecWriter::new();
    write_hello_msg(&mut w, "AB");
    assert_eq!(w.buffer, vec![0, 0, 0, 0, 2, 65, 66, 0, 0, 0]);
}

#[test]
fn brain_hello_to_vec_encodes_options() {
    let hello = BrainHello {
        brain_id: "AB".to_string(),
        panel_name: Some("P".to_string()),
        firmware_version: None,
        idf_version: None,
    };
    assert_eq!(
        hello.to_vec(),
        vec![0, 0, 0, 0, 2, 65, 66, 1, 0, 0, 0, 1, 80, 0, 0]
    );
}

#[test]
fn ping_to_vec_encodes_pong_flag_and_data() {
    let ping = Ping { data: vec![1, 2], is_pong: true };
    assert_eq!(ping.to_vec(), vec![5, 1, 0, 0, 0, 2, 1, 2]);
}

#[test]
fn create_hello_msg_frames_announcement() {
    let msg = create_hello_msg(3, "AB");
    let body = vec![0, 0, 0, 0, 2, 65, 66, 0, 0, 0];
    let mut expected = vec![0, 3, 0, 10, 0, 0, 0, 10, 0, 0, 0, 0];
    expected.extend_from_slice(&body);
    assert_eq!(msg, expected);
}

#[test]
fn use_firmware_parses_url() {
    let payload = [0, 0, 0, 4, b'h', b't', b't', b'p'];
    let fw = UseFirmware::parse(&payload).unwrap();
    assert_eq!(fw.url, "http");
}

#[test]
fn use_firmware_decodes_multibyte_utf8() {
    let url = "http://\u{e9}x";
    let mut payload = (url.len() as u32).to_be_bytes().to_vec();
    payload.extend_from_slice(url.as_bytes());
    let fw = UseFirmware::parse(&payload).unwrap();
    assert_eq!(fw.url, url);
}

#[test]
fn use_firmware_rejects_short_length_field() {
    assert!(matches!(
        UseFirmware::parse(&[0, 0, 0]),
        Err(ProtoError::TruncatedInput)
    ));
}

#[test]
fn use_firmware_rejects_overrunning_length() {
    assert!(matches!(
        UseFirmware::parse(&[0, 0, 0, 9, b'h']),
        Err(ProtoError::MalformedMessage)
    ));
}

#[test]
fn use_firmware_rejects_oversized_url() {
    let mut payload = vec![0, 0, 2, 1];
    payload.extend(std::iter::repeat(b'a').take(513));
    assert!(matches!(
        UseFirmware::parse(&payload),
        Err(ProtoError::MalformedMessage)
    ));
}

#[test]
fn use_firmware_rejects_invalid_utf8() {
    assert!(matches!(
        UseFirmware::parse(&[0, 0, 0, 1, 0xFF]),
        Err(ProtoError::MalformedMessage)
    ));
}

#[test]
fn enum_codes_match_wire_values() {
    assert_eq!(msg_type_code(MessageType::BrainHello), 0);
    assert_eq!(msg_type_code(MessageType::BrainPanelShade), 1);
    assert_eq!(msg_type_code(MessageType::MapperHello), 2);
    assert_eq!(msg_type_code(MessageType::BrainIdRequest), 3);
    assert_eq!(msg_type_code(MessageType::BrainMapping), 4);
    assert_eq!(msg_type_code(MessageType::Ping), 5);
    assert_eq!(msg_type_code(MessageType::UseFirmware), 6);
    // The supported descriptors are [shader, encoding] byte pairs.
    assert_eq!(
        [shader_code(ShaderType::Pixel), encoding_code(Encoding::DirectRgb)],
        [1, 1]
    );
    assert_eq!(
        [shader_code(ShaderType::Pixel), encoding_code(Encoding::Indexed2)],
        [1, 2]
    );
    assert_eq!(encoding_code(Encoding::DirectArgb), 0);
    assert_eq!(encoding_code(Encoding::Indexed4), 3);
    assert_eq!(encoding_code(Encoding::Indexed16), 4);
    assert_eq!(shader_code(ShaderType::Solid), 0);
}
