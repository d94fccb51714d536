//! The protobuf messages of the tunnel: the frame that carries every session
//! event, and the payloads it carries (a target address, a UDP datagram, the
//! answer to a session request). Each is written as prost writes it (fields
//! at their default value are left out) and read back as prost reads it.
use vstd::prelude::*;
use vstd::utf8::*;
use crate::wire::{
    decode_fields, decode_message_fields, encode_fields, field_views, fields_fit,
    lemma_fields_roundtrip, located_error, opt_view, put_bytes_field, put_varint_field,
    row_has_kinds, value_has_kind, FailureModel, FieldKind, FieldVal, FieldValue, WireError,
};
use crate::varint::{decode_prefix, MAX_TAG};

verus! {

broadcast use {decode_utf8_encode_utf8, encode_utf8_valid_utf8, encode_utf8_decode_utf8};

/// What a tunnel frame is about.
#[derive(Clone, Copy, Debug, PartialEq, Eq)]
pub enum MessageType {
    Command,
    ProxySessionCreate,
    ProxySessionData,
    ProxySessionClose,
    ProxyUdpData,
    ProxySessionHalfClose,
}

/// The number a frame of type `t` carries in its type field.
pub open spec fn message_type_code(t: MessageType) -> i32 {
    match t {
        MessageType::Command => 0,
        MessageType::ProxySessionCreate => 1,
        MessageType::ProxySessionData => 2,
        MessageType::ProxySessionClose => 3,
        MessageType::ProxyUdpData => 4,
        MessageType::ProxySessionHalfClose => 5,
    }
}

/// The frame type whose number is `code`, if any.
pub open spec fn message_type_of(code: i32) -> Option<MessageType> {
    if code == 0 {
        Some(MessageType::Command)
    } else if code == 1 {
        Some(MessageType::ProxySessionCreate)
    } else if code == 2 {
        Some(MessageType::ProxySessionData)
    } else if code == 3 {
        Some(MessageType::ProxySessionClose)
    } else if code == 4 {
        Some(MessageType::ProxyUdpData)
    } else if code == 5 {
        Some(MessageType::ProxySessionHalfClose)
    } else {
        None
    }
}

impl MessageType {
    /// The number this frame type carries on the wire.
    pub fn code(&self) -> (c: i32)
        ensures
            c == message_type_code(*self),
            *self == MessageType::Command ==> c == 0,
            *self == MessageType::ProxySessionCreate ==> c == 1,
            *self == MessageType::ProxySessionData ==> c == 2,
            *self == MessageType::ProxySessionClose ==> c == 3,
            *self == MessageType::ProxyUdpData ==> c == 4,
            *self == MessageType::ProxySessionHalfClose ==> c == 5,
    {
        match self {
            MessageType::Command => 0,
            MessageType::ProxySessionCreate => 1,
            MessageType::ProxySessionData => 2,
            MessageType::ProxySessionClose => 3,
            MessageType::ProxyUdpData => 4,
            MessageType::ProxySessionHalfClose => 5,
        }
    }

    /// The frame type of a wire number; `None` for a number no type has.
    pub fn from_code(code: i32) -> (t: Option<MessageType>)
        ensures
            t == message_type_of(code),
            code == 0 ==> t == Some(MessageType::Command),
            code == 1 ==> t == Some(MessageType::ProxySessionCreate),
            code == 2 ==> t == Some(MessageType::ProxySessionData),
            code == 3 ==> t == Some(MessageType::ProxySessionClose),
            code == 4 ==> t == Some(MessageType::ProxyUdpData),
            code == 5 ==> t == Some(MessageType::ProxySessionHalfClose),
            !(0 <= code <= 5) ==> t is None,
    {
        if code == 0 {
            Some(MessageType::Command)
        } else if code == 1 {
            Some(MessageType::ProxySessionCreate)
        } else if code == 2 {
            Some(MessageType::ProxySessionData)
        } else if code == 3 {
            Some(MessageType::ProxySessionClose)
        } else if code == 4 {
            Some(MessageType::ProxyUdpData)
        } else if code == 5 {
            Some(MessageType::ProxySessionHalfClose)
        } else {
            None
        }
    }
}

/// The numbers of the frame types are those of the schema: `Command` 0,
/// `ProxySessionCreate` 1, `ProxySessionData` 2, `ProxySessionClose` 3,
/// `ProxyUdpData` 4, `ProxySessionHalfClose` 5; no other number names a
/// type.
pub proof fn lemma_message_type_numbers(code: i32)
    ensures
        message_type_code(MessageType::Command) == 0,
        message_type_code(MessageType::ProxySessionCreate) == 1,
        message_type_code(MessageType::ProxySessionData) == 2,
        message_type_code(MessageType::ProxySessionClose) == 3,
        message_type_code(MessageType::ProxyUdpData) == 4,
        message_type_code(MessageType::ProxySessionHalfClose) == 5,
        message_type_of(0) == Some(MessageType::Command),
        message_type_of(1) == Some(MessageType::ProxySessionCreate),
        message_type_of(2) == Some(MessageType::ProxySessionData),
        message_type_of(3) == Some(MessageType::ProxySessionClose),
        message_type_of(4) == Some(MessageType::ProxyUdpData),
        message_type_of(5) == Some(MessageType::ProxySessionHalfClose),
        !(0 <= code <= 5) ==> message_type_of(code) is None,
{
}

/// Every frame type reads back from its own number, and a number that names
/// a type is that type's number.
pub proof fn lemma_message_type_code_roundtrip(t: MessageType, code: i32)
    ensures
        message_type_of(message_type_code(t)) == Some(t),
        message_type_of(code) == Some(t) ==> message_type_code(t) == code,
{
}

/// The field of an `int32` value (absent at zero).
pub open spec fn int32_field(v: i32) -> Option<FieldVal> {
    if v == 0 {
        None
    } else {
        Some(FieldVal::Num(v as u64))
    }
}

/// The field of a `bool` value (absent when false).
pub open spec fn bool_field(b: bool) -> Option<FieldVal> {
    if b {
        Some(FieldVal::Num(1))
    } else {
        None
    }
}

/// The field of a `string` value (absent when empty).
pub open spec fn text_field(s: Seq<char>) -> Option<FieldVal> {
    if s.len() == 0 {
        None
    } else {
        Some(FieldVal::Blob(encode_utf8(s)))
    }
}

/// The field of a `bytes` value (absent when empty).
pub open spec fn bytes_field(b: Seq<u8>) -> Option<FieldVal> {
    if b.len() == 0 {
        None
    } else {
        Some(FieldVal::Blob(b))
    }
}

/// The text prost displays when it refuses the bytes of the message named
/// `msg`, whose fields are named `names`, for the refusal `fm`: a refused
/// known field is shown with its path.
pub open spec fn failure_text(msg: Seq<char>, names: Seq<Seq<char>>, fm: FailureModel) -> Seq<
    char,
> {
    match fm.0 {
        None => decode_prefix() + fm.1,
        Some(j) => decode_prefix() + msg + "."@ + names[j as int] + ": "@ + fm.1,
    }
}

/// The refusal that `decode_fields` gives for bytes it refuses.
pub open spec fn refusal_of(r: Result<Seq<Option<FieldVal>>, FailureModel>) -> FailureModel {
    match r {
        Err(fm) => fm,
        Ok(_) => (None, Seq::empty()),
    }
}

/// The `int32` value read from a field: the low 32 bits of the varint.
pub open spec fn field_int32(f: Option<FieldVal>) -> i32 {
    match f {
        Some(FieldVal::Num(x)) => x as i32,
        _ => 0,
    }
}

/// The `bool` value read from a field.
pub open spec fn field_bool(f: Option<FieldVal>) -> bool {
    match f {
        Some(FieldVal::Num(x)) => x != 0,
        _ => false,
    }
}

/// The `string` value read from a field.
pub open spec fn field_text(f: Option<FieldVal>) -> Seq<char> {
    match f {
        Some(FieldVal::Blob(b)) => decode_utf8(b),
        _ => Seq::empty(),
    }
}

/// The `bytes` value read from a field.
pub open spec fn field_bytes(f: Option<FieldVal>) -> Seq<u8> {
    match f {
        Some(FieldVal::Blob(b)) => b,
        _ => Seq::empty(),
    }
}

proof fn lemma_int32_roundtrip(v: i32)
    ensures
        field_int32(int32_field(v)) == v,
{
    if v != 0 {
        assert(((v as u64) as i32) == v) by (bit_vector);
    }
}

fn take_int32(f: Option<FieldValue>) -> (v: i32)
    ensures
        v == field_int32(opt_view(f)),
{
    match f {
        Some(FieldValue::Varint(x)) => x as i32,
        _ => 0,
    }
}

fn take_bool(f: Option<FieldValue>) -> (v: bool)
    ensures
        v == field_bool(opt_view(f)),
{
    match f {
        Some(FieldValue::Varint(x)) => x != 0,
        _ => false,
    }
}

fn take_text(f: Option<FieldValue>) -> (s: String)
    requires
        f matches Some(v) ==> value_has_kind(FieldKind::Text, v),
    ensures
        s@ == field_text(opt_view(f)),
{
    match f {
        Some(FieldValue::Text(s)) => s,
        _ => String::new(),
    }
}

fn take_bytes(f: Option<FieldValue>) -> (b: Vec<u8>)
    requires
        f matches Some(v) ==> value_has_kind(FieldKind::Bytes, v),
    ensures
        b@ == field_bytes(opt_view(f)),
{
    match f {
        Some(FieldValue::Bytes(b)) => b,
        _ => Vec::new(),
    }
}

fn take_last(fields: &mut Vec<Option<FieldValue>>) -> (f: Option<FieldValue>)
    requires
        old(fields)@.len() >= 1,
    ensures
        final(fields)@ == old(fields)@.drop_last(),
        f == old(fields)@.last(),
{
    match fields.pop() {
        Some(f) => f,
        None => None,
    }
}

fn put_text_field(tag: u32, s: &String, buf: &mut Vec<u8>)
    requires
        1 <= tag <= MAX_TAG,
    ensures
        final(buf)@ == old(buf)@ + (match text_field(s@) {
            Some(v) => crate::wire::encode_field(tag as nat, v),
            None => Seq::empty(),
        }),
{
    if s.as_str().is_empty() {
        assert(buf@ =~= old(buf)@ + Seq::empty());
    } else {
        put_bytes_field(tag, s.as_str().as_bytes(), buf);
    }
}

fn put_data_field(tag: u32, b: &[u8], buf: &mut Vec<u8>)
    requires
        1 <= tag <= MAX_TAG,
    ensures
        final(buf)@ == old(buf)@ + (match bytes_field(b@) {
            Some(v) => crate::wire::encode_field(tag as nat, v),
            None => Seq::empty(),
        }),
{
    if b.len() == 0 {
        assert(buf@ =~= old(buf)@ + Seq::empty());
    } else {
        put_bytes_field(tag, b, buf);
    }
}

/// The frame the tunnel carries: its type number, the session it belongs to
/// and the bytes it carries.
#[derive(Clone, Debug, PartialEq, Eq)]
pub struct Message {
    pub msg_type: i32,
    pub session_id: String,
    pub payload: Vec<u8>,
}

/// What a frame holds.
pub struct MessageModel {
    pub msg_type: i32,
    pub session_id: Seq<char>,
    pub payload: Seq<u8>,
}

impl View for Message {
    type V = MessageModel;

    open spec fn view(&self) -> MessageModel {
        MessageModel { msg_type: self.msg_type, session_id: self.session_id@, payload: self.payload@ }
    }
}

/// Field 1 is the type (`int32`), field 2 the session id (`string`), field 3
/// the payload (`bytes`).
pub open spec fn message_schema() -> Seq<FieldKind> {
    seq![FieldKind::Varint, FieldKind::Text, FieldKind::Bytes]
}

/// The fields of a frame.
pub open spec fn message_fields(m: MessageModel) -> Seq<Option<FieldVal>> {
    seq![int32_field(m.msg_type), text_field(m.session_id), bytes_field(m.payload)]
}

/// The bytes of a frame.
pub open spec fn message_wire(m: MessageModel) -> Seq<u8> {
    encode_fields(message_fields(m))
}

/// The names prost gives the fields of a frame.
pub open spec fn message_field_names() -> Seq<Seq<char>> {
    seq!["r#type"@, "session_id"@, "payload"@]
}

/// The frame read from `bytes`, or the text of prost's refusal.
pub open spec fn message_parse(bytes: Seq<u8>) -> Result<MessageModel, Seq<char>> {
    match decode_fields(bytes, message_schema()) {
        Ok(f) => Ok(
            MessageModel {
                msg_type: field_int32(f[0]),
                session_id: field_text(f[1]),
                payload: field_bytes(f[2]),
            },
        ),
        Err(fm) => Err(failure_text("Message"@, message_field_names(), fm)),
    }
}

impl Message {
    /// The frame's bytes, as prost writes them.
    pub fn encode(&self) -> (bytes: Vec<u8>)
        ensures
            bytes@ == message_wire(self@),
    {
        let mut buf: Vec<u8> = Vec::new();
        if self.msg_type != 0 {
            put_varint_field(1, self.msg_type as u64, &mut buf);
        }
        put_text_field(2, &self.session_id, &mut buf);
        put_data_field(3, self.payload.as_slice(), &mut buf);
        proof {
            reveal_with_fuel(crate::wire::encode_fields_from, 4);
        }
        assert(buf@ =~= message_wire(self@));
        buf
    }

    /// The frame read from `bytes` as prost reads it; `Err` exactly when
    /// prost refuses the bytes, with the text prost's error displays.
    pub fn decode(bytes: &[u8]) -> (res: Result<Message, WireError>)
        ensures
            match message_parse(bytes@) {
                Ok(m) => res matches Ok(x) && x@ == m,
                Err(t) => res matches Err(WireError::Malformed(e)) && e@ == t,
            },
    {
        let schema = [FieldKind::Varint, FieldKind::Text, FieldKind::Bytes];
        assert(schema@ =~= message_schema());
        let mut fields = match decode_message_fields(bytes, schema.as_slice()) {
            Ok(f) => f,
            Err(f) => {
                let ghost fm = refusal_of(decode_fields(bytes@, message_schema()));
                let name = match f.field {
                    Some(0) => "r#type",
                    Some(1) => "session_id",
                    _ => "payload",
                };
                proof {
                    if let Some(j) = fm.0 {
                        assert(name@ == message_field_names()[j as int]);
                    }
                }
                return Err(located_error(f, "Message", name));
            },
        };
        let ghost row = fields@;
        assert(field_views(row)[0] == opt_view(row[0]));
        assert(field_views(row)[1] == opt_view(row[1]));
        assert(field_views(row)[2] == opt_view(row[2]));
        assert(row[1] matches Some(v) ==> value_has_kind(FieldKind::Text, v));
        assert(row[2] matches Some(v) ==> value_has_kind(FieldKind::Bytes, v));
        let payload = take_last(&mut fields);
        let session_id = take_last(&mut fields);
        let msg_type = take_last(&mut fields);
        Ok(
            Message {
                msg_type: take_int32(msg_type),
                session_id: take_text(session_id),
                payload: take_bytes(payload),
            },
        )
    }
}

/// Reading back the bytes of a frame gives the same frame.
pub proof fn lemma_message_roundtrip(m: MessageModel)
    requires
        m.payload.len() <= u64::MAX,
        encode_utf8(m.session_id).len() <= u64::MAX,
    ensures
        message_parse(message_wire(m)) == Ok::<MessageModel, Seq<char>>(m),
{
    let f = message_fields(m);
    assert(fields_fit(f, message_schema()));
    lemma_fields_roundtrip(f, message_schema());
    lemma_int32_roundtrip(m.msg_type);
    assert(field_text(text_field(m.session_id)) =~= m.session_id);
    assert(field_bytes(bytes_field(m.payload)) =~= m.payload);
}

/// The target of a TCP session: `host:port` as text.
#[derive(Clone, Debug, PartialEq, Eq)]
pub struct DestAddr {
    pub addr: String,
}

/// Field 1 is the address (`string`).
pub open spec fn dest_addr_schema() -> Seq<FieldKind> {
    seq![FieldKind::Text]
}

/// The bytes of a target address.
pub open spec fn dest_addr_wire(addr: Seq<char>) -> Seq<u8> {
    encode_fields(seq![text_field(addr)])
}

/// The names prost gives the fields of a target address.
pub open spec fn dest_addr_field_names() -> Seq<Seq<char>> {
    seq!["addr"@]
}

/// The target address read from `bytes`, or the text of prost's refusal.
pub open spec fn dest_addr_parse(bytes: Seq<u8>) -> Result<Seq<char>, Seq<char>> {
    match decode_fields(bytes, dest_addr_schema()) {
        Ok(f) => Ok(field_text(f[0])),
        Err(fm) => Err(failure_text("DestAddr"@, dest_addr_field_names(), fm)),
    }
}

impl DestAddr {
    /// The address's bytes, as prost writes them.
    pub fn encode(&self) -> (bytes: Vec<u8>)
        ensures
            bytes@ == dest_addr_wire(self.addr@),
    {
        let mut buf: Vec<u8> = Vec::new();
        put_text_field(1, &self.addr, &mut buf);
        proof {
            reveal_with_fuel(crate::wire::encode_fields_from, 2);
        }
        assert(buf@ =~= dest_addr_wire(self.addr@));
        buf
    }

    /// The address read from `bytes` as prost reads it; `Err` exactly when
    /// prost refuses the bytes, with the text prost's error displays.
    pub fn decode(bytes: &[u8]) -> (res: Result<DestAddr, WireError>)
        ensures
            match dest_addr_parse(bytes@) {
                Ok(a) => res matches Ok(x) && x.addr@ == a,
                Err(t) => res matches Err(WireError::Malformed(e)) && e@ == t,
            },
    {
        let schema = [FieldKind::Text];
        assert(schema@ =~= dest_addr_schema());
        let mut fields = match decode_message_fields(bytes, schema.as_slice()) {
            Ok(f) => f,
            Err(f) => {
                let ghost fm = refusal_of(decode_fields(bytes@, dest_addr_schema()));
                let name = "addr";
                proof {
                    if let Some(j) = fm.0 {
                        assert(name@ == dest_addr_field_names()[j as int]);
                    }
                }
                return Err(located_error(f, "DestAddr", name));
            },
        };
        let ghost row = fields@;
        assert(field_views(row)[0] == opt_view(row[0]));
        assert(row[0] matches Some(v) ==> value_has_kind(FieldKind::Text, v));
        let addr = take_last(&mut fields);
        Ok(DestAddr { addr: take_text(addr) })
    }
}

/// Reading back the bytes of a target address gives the same address.
pub proof fn lemma_dest_addr_roundtrip(addr: Seq<char>)
    requires
        encode_utf8(addr).len() <= u64::MAX,
    ensures
        dest_addr_parse(dest_addr_wire(addr)) == Ok::<Seq<char>, Seq<char>>(addr),
{
    let f = seq![text_field(addr)];
    assert(fields_fit(f, dest_addr_schema()));
    lemma_fields_roundtrip(f, dest_addr_schema());
    assert(field_text(text_field(addr)) =~= addr);
}

/// A UDP datagram and the address it goes to or came from.
#[derive(Clone, Debug, PartialEq, Eq)]
pub struct UdpData {
    pub addr: String,
    pub data: Vec<u8>,
}

/// What a UDP datagram frame holds.
pub struct UdpDataModel {
    pub addr: Seq<char>,
    pub data: Seq<u8>,
}

impl View for UdpData {
    type V = UdpDataModel;

    open spec fn view(&self) -> UdpDataModel {
        UdpDataModel { addr: self.addr@, data: self.data@ }
    }
}

/// Field 1 is the address (`string`), field 2 the datagram (`bytes`).
pub open spec fn udp_data_schema() -> Seq<FieldKind> {
    seq![FieldKind::Text, FieldKind::Bytes]
}

/// The bytes of a datagram record.
pub open spec fn udp_data_wire(u: UdpDataModel) -> Seq<u8> {
    encode_fields(seq![text_field(u.addr), bytes_field(u.data)])
}

/// The names prost gives the fields of a datagram record.
pub open spec fn udp_data_field_names() -> Seq<Seq<char>> {
    seq!["addr"@, "data"@]
}

/// The datagram record read from `bytes`, or the text of prost's refusal.
pub open spec fn udp_data_parse(bytes: Seq<u8>) -> Result<UdpDataModel, Seq<char>> {
    match decode_fields(bytes, udp_data_schema()) {
        Ok(f) => Ok(UdpDataModel { addr: field_text(f[0]), data: field_bytes(f[1]) }),
        Err(fm) => Err(failure_text("UdpData"@, udp_data_field_names(), fm)),
    }
}

impl UdpData {
    /// The record's bytes, as prost writes them.
    pub fn encode(&self) -> (bytes: Vec<u8>)
        ensures
            bytes@ == udp_data_wire(self@),
    {
        let mut buf: Vec<u8> = Vec::new();
        put_text_field(1, &self.addr, &mut buf);
        put_data_field(2, self.data.as_slice(), &mut buf);
        proof {
            reveal_with_fuel(crate::wire::encode_fields_from, 3);
        }
        assert(buf@ =~= udp_data_wire(self@));
        buf
    }

    /// The record read from `bytes` as prost reads it; `Err` exactly when
    /// prost refuses the bytes, with the text prost's error displays.
    pub fn decode(bytes: &[u8]) -> (res: Result<UdpData, WireError>)
        ensures
            match udp_data_parse(bytes@) {
                Ok(u) => res matches Ok(x) && x@ == u,
                Err(t) => res matches Err(WireError::Malformed(e)) && e@ == t,
            },
    {
        let schema = [FieldKind::Text, FieldKind::Bytes];
        assert(schema@ =~= udp_data_schema());
        let mut fields = match decode_message_fields(bytes, schema.as_slice()) {
            Ok(f) => f,
            Err(f) => {
                let ghost fm = refusal_of(decode_fields(bytes@, udp_data_schema()));
                let name = match f.field {
                    Some(0) => "addr",
                    _ => "data",
                };
                proof {
                    if let Some(j) = fm.0 {
                        assert(name@ == udp_data_field_names()[j as int]);
                    }
                }
                return Err(located_error(f, "UdpData", name));
            },
        };
        let ghost row = fields@;
        assert(field_views(row)[0] == opt_view(row[0]));
        assert(field_views(row)[1] == opt_view(row[1]));
        assert(row[0] matches Some(v) ==> value_has_kind(FieldKind::Text, v));
        assert(row[1] matches Some(v) ==> value_has_kind(FieldKind::Bytes, v));
        let data = take_last(&mut fields);
        let addr = take_last(&mut fields);
        Ok(UdpData { addr: take_text(addr), data: take_bytes(data) })
    }
}

/// Reading back the bytes of a datagram record gives the same record.
pub proof fn lemma_udp_data_roundtrip(u: UdpDataModel)
    requires
        u.data.len() <= u64::MAX,
        encode_utf8(u.addr).len() <= u64::MAX,
    ensures
        udp_data_parse(udp_data_wire(u)) == Ok::<UdpDataModel, Seq<char>>(u),
{
    let f = seq![text_field(u.addr), bytes_field(u.data)];
    assert(fields_fit(f, udp_data_schema()));
    lemma_fields_roundtrip(f, udp_data_schema());
    assert(field_text(text_field(u.addr)) =~= u.addr);
    assert(field_bytes(bytes_field(u.data)) =~= u.data);
}

/// The answer to a session request: whether the connection was made, and
/// why not when it was not.
#[derive(Clone, Debug, PartialEq, Eq)]
pub struct CreateSessionReply {
    pub success: bool,
    pub err_msg: String,
}

/// What an answer holds.
pub struct ReplyModel {
    pub success: bool,
    pub err_msg: Seq<char>,
}

impl View for CreateSessionReply {
    type V = ReplyModel;

    open spec fn view(&self) -> ReplyModel {
        ReplyModel { success: self.success, err_msg: self.err_msg@ }
    }
}

/// Field 1 is the outcome (`bool`), field 2 the reason (`string`).
pub open spec fn reply_schema() -> Seq<FieldKind> {
    seq![FieldKind::Varint, FieldKind::Text]
}

/// The bytes of an answer.
pub open spec fn reply_wire(r: ReplyModel) -> Seq<u8> {
    encode_fields(seq![bool_field(r.success), text_field(r.err_msg)])
}

/// The names prost gives the fields of an answer.
pub open spec fn reply_field_names() -> Seq<Seq<char>> {
    seq!["success"@, "err_msg"@]
}

/// The answer read from `bytes`, or the text of prost's refusal.
pub open spec fn reply_parse(bytes: Seq<u8>) -> Result<ReplyModel, Seq<char>> {
    match decode_fields(bytes, reply_schema()) {
        Ok(f) => Ok(ReplyModel { success: field_bool(f[0]), err_msg: field_text(f[1]) }),
        Err(fm) => Err(failure_text("CreateSessionReply"@, reply_field_names(), fm)),
    }
}

impl CreateSessionReply {
    /// The answer's bytes, as prost writes them.
    pub fn encode(&self) -> (bytes: Vec<u8>)
        ensures
            bytes@ == reply_wire(self@),
    {
        let mut buf: Vec<u8> = Vec::new();
        if self.success {
            put_varint_field(1, 1, &mut buf);
        }
        put_text_field(2, &self.err_msg, &mut buf);
        proof {
            reveal_with_fuel(crate::wire::encode_fields_from, 3);
        }
        assert(buf@ =~= reply_wire(self@));
        buf
    }

    /// The answer read from `bytes` as prost reads it; `Err` exactly when
    /// prost refuses the bytes, with the text prost's error displays.
    pub fn decode(bytes: &[u8]) -> (res: Result<CreateSessionReply, WireError>)
        ensures
            match reply_parse(bytes@) {
                Ok(r) => res matches Ok(x) && x@ == r,
                Err(t) => res matches Err(WireError::Malformed(e)) && e@ == t,
            },
    {
        let schema = [FieldKind::Varint, FieldKind::Text];
        assert(schema@ =~= reply_schema());
        let mut fields = match decode_message_fields(bytes, schema.as_slice()) {
            Ok(f) => f,
            Err(f) => {
                let ghost fm = refusal_of(decode_fields(bytes@, reply_schema()));
                let name = match f.field {
                    Some(0) => "success",
                    _ => "err_msg",
                };
                proof {
                    if let Some(j) = fm.0 {
                        assert(name@ == reply_field_names()[j as int]);
                    }
                }
                return Err(located_error(f, "CreateSessionReply", name));
            },
        };
        let ghost row = fields@;
        assert(field_views(row)[0] == opt_view(row[0]));
        assert(field_views(row)[1] == opt_view(row[1]));
        assert(row[1] matches Some(v) ==> value_has_kind(FieldKind::Text, v));
        let err_msg = take_last(&mut fields);
        let success = take_last(&mut fields);
        Ok(CreateSessionReply { success: take_bool(success), err_msg: take_text(err_msg) })
    }
}

/// Reading back the bytes of an answer gives the same answer.
pub proof fn lemma_reply_roundtrip(r: ReplyModel)
    requires
        encode_utf8(r.err_msg).len() <= u64::MAX,
    ensures
        reply_parse(reply_wire(r)) == Ok::<ReplyModel, Seq<char>>(r),
{
    let f = seq![bool_field(r.success), text_field(r.err_msg)];
    assert(fields_fit(f, reply_schema()));
    lemma_fields_roundtrip(f, reply_schema());
    assert(field_text(text_field(r.err_msg)) =~= r.err_msg);
}

} // verus!
