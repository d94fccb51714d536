//! The frames the client sends up the tunnel for its sessions, and what it
//! does with each frame it receives.
use vstd::prelude::*;
use vstd::utf8::encode_utf8;
use crate::messages::{
    lemma_message_roundtrip, lemma_message_type_code_roundtrip, lemma_reply_roundtrip,
    message_parse, message_type_code, message_type_of, message_wire, reply_parse, reply_wire,
    udp_data_parse, CreateSessionReply, Message, MessageModel, MessageType, ReplyModel, UdpData,
};
use crate::wire::WireError;

verus! {

/// The frame of type `t` for session `session_id` carrying `payload`.
pub open spec fn frame_wire(t: MessageType, session_id: Seq<char>, payload: Seq<u8>) -> Seq<u8> {
    message_wire(
        MessageModel { msg_type: message_type_code(t), session_id: session_id, payload: payload },
    )
}

/// The text of an optional error: empty when there is none.
pub open spec fn error_text(error: Option<Seq<char>>) -> Seq<char> {
    match error {
        Some(e) => e,
        None => Seq::empty(),
    }
}

/// A frame of any type but `Command` starts with the key of field 1 (the
/// byte 8) and then the type's number as a one-byte varint.
pub proof fn lemma_frame_starts_with_type(t: MessageType, session_id: Seq<char>, payload: Seq<u8>)
    requires
        t != MessageType::Command,
    ensures
        frame_wire(t, session_id, payload).len() >= 2,
        frame_wire(t, session_id, payload)[0] == 8,
        frame_wire(t, session_id, payload)[1] == message_type_code(t),
{
    let m = MessageModel { msg_type: message_type_code(t), session_id, payload };
    let fields = crate::messages::message_fields(m);
    let c = message_type_code(t);
    assert(1 <= c <= 5);
    assert(fields[0] == Some(crate::wire::FieldVal::Num(c as u64)));
    assert(crate::varint::key_value(1, crate::varint::WIRE_VARINT) == 8);
    assert(crate::varint::varint_bytes(8) == seq![8u8]);
    assert(crate::varint::varint_bytes(c as u64 as nat) == seq![c as u8]);
    let head = crate::wire::encode_field(1, crate::wire::FieldVal::Num(c as u64));
    assert(head =~= seq![8u8, c as u8]);
    let w = crate::wire::encode_fields_from(fields, 0);
    assert(w == head + crate::wire::encode_fields_from(fields, 1));
}

fn frame(t: MessageType, session_id: &str, payload: Vec<u8>) -> (bytes: Vec<u8>)
    ensures
        bytes@ == frame_wire(t, session_id@, payload@),
{
    let msg = Message { msg_type: t.code(), session_id: session_id.to_owned(), payload };
    msg.encode()
}

/// The answer to a session request: success when `error` is `None`,
/// otherwise a failure carrying the error's text.
pub fn session_create_reply_frame(session_id: &str, error: Option<&str>) -> (bytes: Vec<u8>)
    ensures
        bytes@ == frame_wire(
            MessageType::ProxySessionCreate,
            session_id@,
            reply_wire(
                ReplyModel {
                    success: error is None,
                    err_msg: error_text(
                        match error {
                            Some(e) => Some(e@),
                            None => None,
                        },
                    ),
                },
            ),
        ),
        bytes@.len() >= 2 && bytes@[0] == 8 && bytes@[1] == 1,
{
    proof {
        lemma_frame_starts_with_type(
            MessageType::ProxySessionCreate,
            session_id@,
            reply_wire(
                ReplyModel {
                    success: error is None,
                    err_msg: error_text(
                        match error {
                            Some(e) => Some(e@),
                            None => None,
                        },
                    ),
                },
            ),
        );
    }
    let reply = match error {
        Some(e) => CreateSessionReply { success: false, err_msg: e.to_owned() },
        None => CreateSessionReply { success: true, err_msg: String::new() },
    };
    let payload = reply.encode();
    frame(MessageType::ProxySessionCreate, session_id, payload)
}

/// Bytes read from a session's TCP connection, sent up the tunnel.
pub fn session_data_frame(session_id: &str, data: &[u8]) -> (bytes: Vec<u8>)
    ensures
        bytes@ == frame_wire(MessageType::ProxySessionData, session_id@, data@),
        bytes@.len() >= 2 && bytes@[0] == 8 && bytes@[1] == 2,
{
    proof {
        lemma_frame_starts_with_type(MessageType::ProxySessionData, session_id@, data@);
    }
    frame(MessageType::ProxySessionData, session_id, vstd::slice::slice_to_vec(data))
}

/// The session's TCP peer closed its side of the connection.
pub fn session_half_close_frame(session_id: &str) -> (bytes: Vec<u8>)
    ensures
        bytes@ == frame_wire(MessageType::ProxySessionHalfClose, session_id@, Seq::empty()),
        bytes@.len() >= 2 && bytes@[0] == 8 && bytes@[1] == 5,
{
    proof {
        lemma_frame_starts_with_type(MessageType::ProxySessionHalfClose, session_id@, Seq::empty());
    }
    frame(MessageType::ProxySessionHalfClose, session_id, Vec::new())
}

/// The session is over on this side.
pub fn session_close_frame(session_id: &str) -> (bytes: Vec<u8>)
    ensures
        bytes@ == frame_wire(MessageType::ProxySessionClose, session_id@, Seq::empty()),
        bytes@.len() >= 2 && bytes@[0] == 8 && bytes@[1] == 3,
{
    proof {
        lemma_frame_starts_with_type(MessageType::ProxySessionClose, session_id@, Seq::empty());
    }
    frame(MessageType::ProxySessionClose, session_id, Vec::new())
}

/// A datagram received by a UDP session, sent up the tunnel as it came.
pub fn udp_data_frame(session_id: &str, data: &[u8]) -> (bytes: Vec<u8>)
    ensures
        bytes@ == frame_wire(MessageType::ProxyUdpData, session_id@, data@),
        bytes@.len() >= 2 && bytes@[0] == 8 && bytes@[1] == 4,
{
    proof {
        lemma_frame_starts_with_type(MessageType::ProxyUdpData, session_id@, data@);
    }
    frame(MessageType::ProxyUdpData, session_id, vstd::slice::slice_to_vec(data))
}

/// A frame built here reads back as a frame of the same type, for the same
/// session, carrying the same payload.
pub proof fn lemma_frame_roundtrip(t: MessageType, session_id: Seq<char>, payload: Seq<u8>)
    requires
        payload.len() <= u64::MAX,
        encode_utf8(session_id).len() <= u64::MAX,
    ensures
        message_parse(frame_wire(t, session_id, payload)) == Ok::<MessageModel, Seq<char>>(
            MessageModel { msg_type: message_type_code(t), session_id, payload },
        ),
        message_type_of(message_type_code(t)) == Some(t),
{
    lemma_message_roundtrip(
        MessageModel { msg_type: message_type_code(t), session_id, payload },
    );
    lemma_message_type_code_roundtrip(t, message_type_code(t));
}

/// The answer to a session request reads back as a success exactly when no
/// error was given, with the error's text otherwise.
pub proof fn lemma_reply_frame_roundtrip(session_id: Seq<char>, error: Option<Seq<char>>)
    requires
        encode_utf8(session_id).len() <= u64::MAX,
        encode_utf8(error_text(error)).len() <= u64::MAX,
        reply_wire(ReplyModel { success: error is None, err_msg: error_text(error) }).len()
            <= u64::MAX,
    ensures
        ({
            let payload = reply_wire(
                ReplyModel { success: error is None, err_msg: error_text(error) },
            );
            &&& message_parse(frame_wire(MessageType::ProxySessionCreate, session_id, payload))
                == Ok::<MessageModel, Seq<char>>(
                MessageModel {
                    msg_type: message_type_code(MessageType::ProxySessionCreate),
                    session_id,
                    payload,
                },
            )
            &&& reply_parse(payload) == Ok::<ReplyModel, Seq<char>>(
                ReplyModel { success: error is None, err_msg: error_text(error) },
            )
        }),
{
    let r = ReplyModel { success: error is None, err_msg: error_text(error) };
    lemma_reply_roundtrip(r);
    lemma_frame_roundtrip(MessageType::ProxySessionCreate, session_id, reply_wire(r));
}

/// What a received frame asks of the client.
#[derive(Debug)]
pub enum TunnelCommand {
    /// Open a TCP session; the payload holds the target address.
    CreateSession { session_id: String, payload: Vec<u8> },
    /// Write these bytes to the session's connection.
    SessionData { session_id: String, data: Vec<u8> },
    /// Shut down the writing side of the session's connection.
    SessionHalfClose { session_id: String },
    /// Close the session.
    SessionClose { session_id: String },
    /// Send a datagram for this UDP session.
    UdpData { session_id: String, datagram: UdpData },
    /// A frame type the client does not handle.
    Unsupported { msg_type: i32 },
}

/// What the client does with a received frame whose type number is known.
/// `Err` only for a datagram frame whose payload does not decode, with the
/// text prost's error displays.
pub fn route_message(msg: Message) -> (res: Result<TunnelCommand, WireError>)
    requires
        message_type_of(msg.msg_type) is Some,
    ensures
        message_type_of(msg.msg_type) == Some(MessageType::ProxySessionCreate) ==> (res matches Ok(
            TunnelCommand::CreateSession { session_id, payload },
        ) && session_id@ == msg.session_id@ && payload@ == msg.payload@),
        message_type_of(msg.msg_type) == Some(MessageType::ProxySessionData) ==> (res matches Ok(
            TunnelCommand::SessionData { session_id, data },
        ) && session_id@ == msg.session_id@ && data@ == msg.payload@),
        message_type_of(msg.msg_type) == Some(MessageType::ProxySessionHalfClose) ==> (res matches Ok(
            TunnelCommand::SessionHalfClose { session_id },
        ) && session_id@ == msg.session_id@),
        message_type_of(msg.msg_type) == Some(MessageType::ProxySessionClose) ==> (res matches Ok(
            TunnelCommand::SessionClose { session_id },
        ) && session_id@ == msg.session_id@),
        message_type_of(msg.msg_type) == Some(MessageType::ProxyUdpData) ==> match udp_data_parse(
            msg.payload@,
        ) {
            Ok(u) => res matches Ok(TunnelCommand::UdpData { session_id, datagram })
                && session_id@ == msg.session_id@ && datagram@ == u,
            Err(t) => res matches Err(WireError::Malformed(e)) && e@ == t,
        },
        message_type_of(msg.msg_type) == Some(MessageType::Command) ==> res == Ok::<
            TunnelCommand,
            WireError,
        >(TunnelCommand::Unsupported { msg_type: msg.msg_type }),
{
    let t = MessageType::from_code(msg.msg_type);
    match t {
        Some(MessageType::ProxySessionCreate) => Ok(
            TunnelCommand::CreateSession { session_id: msg.session_id, payload: msg.payload },
        ),
        Some(MessageType::ProxySessionData) => Ok(
            TunnelCommand::SessionData { session_id: msg.session_id, data: msg.payload },
        ),
        Some(MessageType::ProxySessionHalfClose) => Ok(
            TunnelCommand::SessionHalfClose { session_id: msg.session_id },
        ),
        Some(MessageType::ProxySessionClose) => Ok(
            TunnelCommand::SessionClose { session_id: msg.session_id },
        ),
        Some(MessageType::ProxyUdpData) => {
            match UdpData::decode(msg.payload.as_slice()) {
                Ok(datagram) => Ok(
                    TunnelCommand::UdpData { session_id: msg.session_id, datagram },
                ),
                Err(e) => Err(e),
            }
        },
        _ => Ok(TunnelCommand::Unsupported { msg_type: msg.msg_type }),
    }
}

} // verus!
