use titan_ipoverlay_client::frames::{
    route_message, session_close_frame, session_create_reply_frame, session_data_frame,
    session_half_close_frame, udp_data_frame, TunnelCommand,
};
use titan_ipoverlay_client::messages::{CreateSessionReply, Message, MessageType, UdpData};
use titan_ipoverlay_client::wire::WireError;

#[test]
fn reply_frame_success() {
    let bytes = session_create_reply_frame("s1", None);
    let m = Message::decode(&bytes).unwrap();
    assert_eq!(m.msg_type, MessageType::ProxySessionCreate.code());
    assert_eq!(m.session_id, "s1");
    let reply = CreateSessionReply::decode(&m.payload).unwrap();
    assert!(reply.success);
    assert_eq!(reply.err_msg, "");
}

#[test]
fn reply_frame_failure_carries_error_text() {
    let bytes = session_create_reply_frame("s1", Some("connection refused"));
    let m = Message::decode(&bytes).unwrap();
    let reply = CreateSessionReply::decode(&m.payload).unwrap();
    assert!(!reply.success);
    assert_eq!(reply.err_msg, "connection refused");
}

#[test]
fn data_frame_bytes() {
    let bytes = session_data_frame("a", &[5, 6]);
    assert_eq!(bytes, vec![0x08, 0x02, 0x12, 0x01, b'a', 0x1a, 0x02, 5, 6]);
}

#[test]
fn half_close_and_close_frames_have_no_payload() {
    let h = Message::decode(&session_half_close_frame("q")).unwrap();
    assert_eq!(h.msg_type, MessageType::ProxySessionHalfClose.code());
    assert!(h.payload.is_empty());
    let c = Message::decode(&session_close_frame("q")).unwrap();
    assert_eq!(c.msg_type, MessageType::ProxySessionClose.code());
    assert_eq!(c.session_id, "q");
    assert!(c.payload.is_empty());
}

#[test]
fn udp_frame_carries_raw_datagram() {
    let m = Message::decode(&udp_data_frame("u", &[1, 2, 3])).unwrap();
    assert_eq!(m.msg_type, MessageType::ProxyUdpData.code());
    assert_eq!(m.payload, vec![1, 2, 3]);
}

fn msg(t: MessageType, id: &str, payload: Vec<u8>) -> Message {
    Message { msg_type: t.code(), session_id: id.to_string(), payload }
}

#[test]
fn route_create_session() {
    match route_message(msg(MessageType::ProxySessionCreate, "s", vec![1])).unwrap() {
        TunnelCommand::CreateSession { session_id, payload } => {
            assert_eq!(session_id, "s");
            assert_eq!(payload, vec![1]);
        }
        other => panic!("unexpected {:?}", other),
    }
}

#[test]
fn route_session_data_half_close_close() {
    assert!(matches!(
        route_message(msg(MessageType::ProxySessionData, "s", vec![4])).unwrap(),
        TunnelCommand::SessionData { ref session_id, ref data } if session_id == "s" && data == &vec![4]
    ));
    assert!(matches!(
        route_message(msg(MessageType::ProxySessionHalfClose, "s", vec![])).unwrap(),
        TunnelCommand::SessionHalfClose { ref session_id } if session_id == "s"
    ));
    assert!(matches!(
        route_message(msg(MessageType::ProxySessionClose, "s", vec![])).unwrap(),
        TunnelCommand::SessionClose { ref session_id } if session_id == "s"
    ));
}

#[test]
fn route_udp_data_decodes_datagram() {
    let u = UdpData { addr: "1.2.3.4:5".to_string(), data: vec![9] };
    match route_message(msg(MessageType::ProxyUdpData, "u", u.encode())).unwrap() {
        TunnelCommand::UdpData { session_id, datagram } => {
            assert_eq!(session_id, "u");
            assert_eq!(datagram, u);
        }
        other => panic!("unexpected {:?}", other),
    }
}

#[test]
fn route_udp_data_with_bad_payload_fails() {
    match route_message(msg(MessageType::ProxyUdpData, "u", vec![0x0a, 0x09])) {
        Err(WireError::Malformed(t)) => {
            assert_eq!(t, "failed to decode Protobuf message: UdpData.addr: buffer underflow")
        }
        other => panic!("unexpected {:?}", other),
    }
}

#[test]
fn route_command_is_unsupported() {
    assert!(matches!(
        route_message(msg(MessageType::Command, "", vec![])).unwrap(),
        TunnelCommand::Unsupported { msg_type: 0 }
    ));
}
