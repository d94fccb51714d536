use titan_ipoverlay_client::messages::{CreateSessionReply, DestAddr, Message, MessageType, UdpData};
use titan_ipoverlay_client::wire::WireError;

fn sample() -> Message {
    Message { msg_type: 2, session_id: "ab".to_string(), payload: vec![1, 2] }
}

#[test]
fn message_encodes_fields_in_order() {
    let bytes = sample().encode();
    assert_eq!(bytes, vec![0x08, 0x02, 0x12, 0x02, b'a', b'b', 0x1a, 0x02, 1, 2]);
}

#[test]
fn message_encoding_matches_prost_field_encoders() {
    let m = Message { msg_type: 300, session_id: "session-7".to_string(), payload: vec![9; 200] };
    let mut expected = Vec::new();
    prost::encoding::int32::encode(1, &m.msg_type, &mut expected);
    prost::encoding::string::encode(2, &m.session_id, &mut expected);
    prost::encoding::bytes::encode(3, &m.payload, &mut expected);
    assert_eq!(m.encode(), expected);
}

#[test]
fn default_fields_are_left_out() {
    let m = Message { msg_type: 0, session_id: String::new(), payload: Vec::new() };
    assert_eq!(m.encode(), Vec::<u8>::new());
    assert_eq!(Message::decode(&[]).unwrap(), m);
}

#[test]
fn message_roundtrips() {
    let m = sample();
    assert_eq!(Message::decode(&m.encode()).unwrap(), m);
}

#[test]
fn negative_type_roundtrips_through_ten_byte_varint() {
    let m = Message { msg_type: -1, session_id: "x".to_string(), payload: vec![] };
    let bytes = m.encode();
    assert_eq!(bytes.len(), 1 + 10 + 3);
    assert_eq!(Message::decode(&bytes).unwrap(), m);
}

#[test]
fn unknown_fields_are_skipped() {
    let mut bytes = sample().encode();
    // field 9, varint 150
    bytes.extend_from_slice(&[0x48, 0x96, 0x01]);
    // field 10, length-delimited, 3 bytes
    bytes.extend_from_slice(&[0x52, 0x03, 7, 7, 7]);
    // field 11, fixed32
    bytes.extend_from_slice(&[0x5d, 1, 2, 3, 4]);
    assert_eq!(Message::decode(&bytes).unwrap(), sample());
}

#[test]
fn last_occurrence_of_a_field_wins() {
    let mut bytes = sample().encode();
    bytes.extend_from_slice(&[0x08, 0x05]);
    let m = Message::decode(&bytes).unwrap();
    assert_eq!(m.msg_type, 5);
}

#[test]
fn wrong_wire_type_is_refused() {
    // field 1 sent as length-delimited
    assert_eq!(
        Message::decode(&[0x0a, 0x01, 0x00]),
        Err(WireError::Malformed(
            "failed to decode Protobuf message: Message.r#type: invalid wire type: LengthDelimited (expected Varint)"
                .to_string()
        ))
    );
    // field 2 sent as a varint
    assert_eq!(
        Message::decode(&[0x10, 0x01]),
        Err(WireError::Malformed(
            "failed to decode Protobuf message: Message.session_id: invalid wire type: Varint (expected LengthDelimited)"
                .to_string()
        ))
    );
}

#[test]
fn invalid_utf8_session_id_is_refused() {
    assert_eq!(
        Message::decode(&[0x12, 0x02, 0xff, 0xfe]),
        Err(WireError::Malformed(
            "failed to decode Protobuf message: Message.session_id: invalid string value: data is not UTF-8 encoded"
                .to_string()
        ))
    );
}

#[test]
fn truncated_payload_is_refused() {
    assert_eq!(
        Message::decode(&[0x1a, 0x05, 1, 2]),
        Err(WireError::Malformed("failed to decode Protobuf message: Message.payload: buffer underflow".to_string()))
    );
}

#[test]
fn truncated_varint_is_refused() {
    assert_eq!(
        Message::decode(&[0x08, 0x80]),
        Err(WireError::Malformed("failed to decode Protobuf message: Message.r#type: invalid varint".to_string()))
    );
}

#[test]
fn field_number_zero_is_refused() {
    assert_eq!(
        Message::decode(&[0x00, 0x01]),
        Err(WireError::Malformed("failed to decode Protobuf message: invalid tag value: 0".to_string()))
    );
}

#[test]
fn end_group_without_start_is_refused() {
    assert_eq!(
        Message::decode(&[0x4c]),
        Err(WireError::Malformed("failed to decode Protobuf message: unexpected end group tag".to_string()))
    );
}

#[test]
fn decode_error_carries_prost_reason() {
    let e = prost::DecodeError::new("invalid varint");
    assert_eq!(Message::decode(&[0x80]), Err(WireError::Malformed(e.to_string())));
    assert_eq!(
        Message::decode(&[0x0f]),
        Err(WireError::Malformed("failed to decode Protobuf message: invalid wire type value: 7".to_string()))
    );
    assert_eq!(
        Message::decode(&[0x80, 0x80, 0x80, 0x80, 0x10]),
        Err(WireError::Malformed("failed to decode Protobuf message: invalid key value: 4294967296".to_string()))
    );
    // an unknown fixed64 field cut short
    assert_eq!(
        Message::decode(&[0x49, 1, 2, 3]),
        Err(WireError::Malformed("failed to decode Protobuf message: buffer underflow".to_string()))
    );
}

#[test]
fn dest_addr_roundtrips() {
    let d = DestAddr { addr: "example.com:443".to_string() };
    let bytes = d.encode();
    assert_eq!(bytes[0], 0x0a);
    assert_eq!(DestAddr::decode(&bytes).unwrap(), d);
}

#[test]
fn udp_data_roundtrips() {
    let u = UdpData { addr: "8.8.8.8:53".to_string(), data: vec![0, 1, 2, 3] };
    assert_eq!(UdpData::decode(&u.encode()).unwrap(), u);
}

#[test]
fn reply_roundtrips() {
    let ok = CreateSessionReply { success: true, err_msg: String::new() };
    assert_eq!(ok.encode(), vec![0x08, 0x01]);
    assert_eq!(CreateSessionReply::decode(&ok.encode()).unwrap(), ok);
    let failed = CreateSessionReply { success: false, err_msg: "refused".to_string() };
    assert_eq!(CreateSessionReply::decode(&failed.encode()).unwrap(), failed);
}

#[test]
fn message_type_codes_roundtrip() {
    let all = [
        MessageType::Command,
        MessageType::ProxySessionCreate,
        MessageType::ProxySessionData,
        MessageType::ProxySessionClose,
        MessageType::ProxyUdpData,
        MessageType::ProxySessionHalfClose,
    ];
    for t in all {
        assert_eq!(MessageType::from_code(t.code()), Some(t));
    }
    assert_eq!(MessageType::from_code(6), None);
    assert_eq!(MessageType::from_code(-1), None);
}

#[test]
fn concatenated_messages_merge() {
    let first = Message { msg_type: 1, session_id: "a".to_string(), payload: vec![1] };
    let second = Message { msg_type: 0, session_id: "b".to_string(), payload: vec![] };
    let mut bytes = first.encode();
    bytes.extend_from_slice(&second.encode());
    let merged = Message::decode(&bytes).unwrap();
    assert_eq!(merged, Message { msg_type: 1, session_id: "b".to_string(), payload: vec![1] });
}

#[test]
fn group_field_is_skipped() {
    let mut bytes = sample().encode();
    // field 9 start-group, inner field 1 varint 1, field 9 end-group
    bytes.extend_from_slice(&[0x4b, 0x08, 0x01, 0x4c]);
    assert_eq!(Message::decode(&bytes).unwrap(), sample());
    // unterminated group
    let mut broken = sample().encode();
    broken.extend_from_slice(&[0x4b, 0x08, 0x01]);
    assert_eq!(
        Message::decode(&broken),
        Err(WireError::Malformed("failed to decode Protobuf message: invalid varint".to_string()))
    );
}

#[test]
fn overlong_varint_is_refused() {
    let mut bytes = vec![0x08];
    bytes.extend_from_slice(&[0xff; 9]);
    bytes.push(0x02);
    assert_eq!(
        Message::decode(&bytes),
        Err(WireError::Malformed("failed to decode Protobuf message: Message.r#type: invalid varint".to_string()))
    );
    let mut ok = vec![0x08];
    ok.extend_from_slice(&[0xff; 9]);
    ok.push(0x01);
    assert_eq!(Message::decode(&ok).unwrap().msg_type, -1);
}

#[test]
fn refusals_name_the_message_and_field() {
    assert_eq!(
        CreateSessionReply::decode(&[0x08, 0x80]),
        Err(WireError::Malformed(
            "failed to decode Protobuf message: CreateSessionReply.success: invalid varint".to_string()
        ))
    );
    assert_eq!(
        CreateSessionReply::decode(&[0x12, 0x01, 0xc0]),
        Err(WireError::Malformed(
            "failed to decode Protobuf message: CreateSessionReply.err_msg: invalid string value: data is not UTF-8 encoded"
                .to_string()
        ))
    );
    assert_eq!(
        UdpData::decode(&[0x12, 0x03, 0x01]),
        Err(WireError::Malformed("failed to decode Protobuf message: UdpData.data: buffer underflow".to_string()))
    );
    assert_eq!(
        DestAddr::decode(&[0x08, 0x01]),
        Err(WireError::Malformed(
            "failed to decode Protobuf message: DestAddr.addr: invalid wire type: Varint (expected LengthDelimited)"
                .to_string()
        ))
    );
}
