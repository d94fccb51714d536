//! Protobuf messages as sequences of numbered fields: how a message of known
//! fields is written, and how prost reads one back (last occurrence of a
//! field wins, unknown fields are skipped, a field with the wrong wire type
//! or a string that is not UTF-8 is refused).
use vstd::prelude::*;
use vstd::utf8::*;
use crate::varint::{
    buffer_underflow, decode_prefix, error_text_is, invalid_varint,
    key_parse, key_value, lemma_key_roundtrip, lemma_varint_parse_range, put_key, put_varint,
    skip_unknown_field, take_key, take_varint, lemma_varint_bytes_nonempty, lemma_varint_roundtrip, skip_len,
    varint_bytes, varint_parse, MAX_TAG, WIRE_LEN, WIRE_VARINT,
};

verus! {

broadcast use {decode_utf8_encode_utf8, encode_utf8_valid_utf8, encode_utf8_decode_utf8};

/// How a known field is carried: a varint, raw bytes, or UTF-8 text.
#[derive(Clone, Copy, Debug, PartialEq, Eq)]
pub enum FieldKind {
    Varint,
    Bytes,
    Text,
}

/// A field value as it stands on the wire.
pub enum FieldVal {
    Num(u64),
    Blob(Seq<u8>),
}

/// A decoded field value.
#[derive(Debug)]
pub enum FieldValue {
    Varint(u64),
    Bytes(Vec<u8>),
    Text(String),
}

impl View for FieldValue {
    type V = FieldVal;

    open spec fn view(&self) -> FieldVal {
        match self {
            FieldValue::Varint(v) => FieldVal::Num(*v),
            FieldValue::Bytes(b) => FieldVal::Blob(b@),
            FieldValue::Text(s) => FieldVal::Blob(encode_utf8(s@)),
        }
    }
}

/// The error of bytes that do not decode. Out of the decoders of the
/// messages it holds the whole text prost's error displays for the bytes;
/// inside a `DecodeFailure` of a known field it holds the description alone.
#[derive(Clone, Debug, PartialEq, Eq)]
pub enum WireError {
    Malformed(String),
}

fn refused(e: prost::DecodeError) -> (res: WireError)
    ensures
        res matches WireError::Malformed(r) && vstd::string::to_string_from_display_ensures::<
            prost::DecodeError,
        >(&e, r),
{
    WireError::Malformed(e.to_string())
}

fn refused_because(reason: &str) -> (res: WireError)
    ensures
        res matches WireError::Malformed(r) && r@ == reason@,
{
    WireError::Malformed(reason.to_owned())
}

/// Why the fields of a message were refused: the index of the known field
/// whose value was refused (`None` when the key or an unknown field was),
/// and prost's description of the cause.
pub type FailureModel = (Option<nat>, Seq<char>);

/// A refusal while reading fields. For a refused known field, `field` is its
/// index and the error holds the description alone; otherwise the error
/// holds the whole text prost displays, which then has no field path.
#[derive(Clone, Debug, PartialEq, Eq)]
pub struct DecodeFailure {
    pub field: Option<usize>,
    pub error: WireError,
}

/// `f` is the refusal `m` describes.
pub open spec fn failure_is(f: DecodeFailure, m: FailureModel) -> bool {
    match f.error {
        WireError::Malformed(t) => match m.0 {
            None => f.field is None && t@ == decode_prefix() + m.1,
            Some(j) => f.field == Some(j as usize) && t@ == m.1,
        },
    }
}

/// Why a string field that is not UTF-8 is refused.
pub open spec fn not_utf8() -> Seq<char> {
    "invalid string value: data is not UTF-8 encoded"@
}

/// The name prost gives wire type `wt`.
pub open spec fn wire_type_name(wt: nat) -> Seq<char> {
    if wt == 0 {
        "Varint"@
    } else if wt == 1 {
        "SixtyFourBit"@
    } else if wt == 2 {
        "LengthDelimited"@
    } else if wt == 3 {
        "StartGroup"@
    } else if wt == 4 {
        "EndGroup"@
    } else {
        "ThirtyTwoBit"@
    }
}

/// Why a field sent with wire type `actual` where `expected` is due is
/// refused.
pub open spec fn wrong_wire_type(actual: nat, expected: nat) -> Seq<char> {
    "invalid wire type: "@ + wire_type_name(actual) + " (expected "@ + wire_type_name(expected)
        + ")"@
}

/// The wire values of a row of decoded fields.
pub open spec fn field_views(fields: Seq<Option<FieldValue>>) -> Seq<Option<FieldVal>> {
    fields.map_values(
        |f: Option<FieldValue>|
            match f {
                Some(v) => Some(v@),
                None => None,
            },
    )
}

/// The wire value of an optional decoded field.
pub open spec fn opt_view(f: Option<FieldValue>) -> Option<FieldVal> {
    match f {
        Some(v) => Some(v@),
        None => None,
    }
}

/// A decoded value carries the variant its field kind calls for.
pub open spec fn value_has_kind(kind: FieldKind, v: FieldValue) -> bool {
    match v {
        FieldValue::Varint(_) => kind == FieldKind::Varint,
        FieldValue::Bytes(_) => kind == FieldKind::Bytes,
        FieldValue::Text(_) => kind == FieldKind::Text,
    }
}

/// Every present value of `row` carries the variant of its field's kind.
pub open spec fn row_has_kinds(row: Seq<Option<FieldValue>>, schema: Seq<FieldKind>) -> bool {
    forall|j: int|
        0 <= j < row.len() && j < schema.len() ==> (#[trigger] row[j] matches Some(v)
            ==> value_has_kind(schema[j], v))
}

/// A row of `n` absent fields.
pub open spec fn no_fields(n: nat) -> Seq<Option<FieldVal>> {
    Seq::new(n, |j: int| None)
}

/// The wire type a field of kind `k` is written with.
pub open spec fn kind_wire_type(k: FieldKind) -> nat {
    match k {
        FieldKind::Varint => WIRE_VARINT as nat,
        _ => WIRE_LEN as nat,
    }
}

/// The value of a known field of kind `kind` at the start of `bytes` and how
/// many bytes it takes, or why it is refused.
pub open spec fn field_value_parse(kind: FieldKind, bytes: Seq<u8>) -> Result<
    (FieldVal, nat),
    Seq<char>,
> {
    match varint_parse(bytes) {
        Some((x, n)) => match kind {
            FieldKind::Varint => Ok((FieldVal::Num(x as u64), n)),
            _ => if x <= bytes.len() - n {
                let data = bytes.subrange(n as int, (n + x) as int);
                if kind == FieldKind::Text && !valid_utf8(data) {
                    Err(not_utf8())
                } else {
                    Ok((FieldVal::Blob(data), n + x))
                }
            } else {
                Err(buffer_underflow())
            },
        },
        None => Err(invalid_varint()),
    }
}

/// Reading the first field of `bytes` on top of `acc` (field number `j + 1`
/// being `schema[j]`): how many bytes the field takes and the row after it,
/// or why prost refuses the field.
pub open spec fn field_step(bytes: Seq<u8>, schema: Seq<FieldKind>, acc: Seq<Option<FieldVal>>) -> Result<
    (nat, Seq<Option<FieldVal>>),
    FailureModel,
> {
    match key_parse(bytes) {
        Ok((tag, wt, n)) => if 1 <= n <= bytes.len() {
            let rest = bytes.subrange(n as int, bytes.len() as int);
            if 1 <= tag <= schema.len() {
                let kind = schema[tag - 1];
                if wt != kind_wire_type(kind) {
                    Err((Some((tag - 1) as nat), wrong_wire_type(wt, kind_wire_type(kind))))
                } else {
                    match field_value_parse(kind, rest) {
                        Ok((val, m)) => if m <= rest.len() {
                            Ok((n + m, acc.update(tag - 1, Some(val))))
                        } else {
                            Err((Some((tag - 1) as nat), buffer_underflow()))
                        },
                        Err(d) => Err((Some((tag - 1) as nat), d)),
                    }
                }
            } else {
                match skip_len(wt as u8, tag as u32, rest) {
                    Ok(m) => if m <= rest.len() {
                        Ok((n + m, acc))
                    } else {
                        Err((None, buffer_underflow()))
                    },
                    Err(d) => Err((None, d)),
                }
            }
        } else {
            Err((None, invalid_varint()))
        },
        Err(d) => Err((None, d)),
    }
}

/// Reading all the fields of `bytes` on top of `acc`, or why prost refuses
/// the bytes.
pub open spec fn decode_fields_from(
    bytes: Seq<u8>,
    schema: Seq<FieldKind>,
    acc: Seq<Option<FieldVal>>,
) -> Result<Seq<Option<FieldVal>>, FailureModel>
    decreases bytes.len(),
{
    if bytes.len() == 0 {
        Ok(acc)
    } else {
        match field_step(bytes, schema, acc) {
            Ok((m, next)) => if 1 <= m <= bytes.len() {
                decode_fields_from(bytes.subrange(m as int, bytes.len() as int), schema, next)
            } else {
                Err((None, invalid_varint()))
            },
            Err(f) => Err(f),
        }
    }
}

/// The fields of a message read from `bytes` (absent fields are `None`), or
/// why prost refuses them.
pub open spec fn decode_fields(bytes: Seq<u8>, schema: Seq<FieldKind>) -> Result<
    Seq<Option<FieldVal>>,
    FailureModel,
> {
    decode_fields_from(bytes, schema, no_fields(schema.len()))
}

/// The bytes of field number `tag` holding `v`.
pub open spec fn encode_field(tag: nat, v: FieldVal) -> Seq<u8> {
    match v {
        FieldVal::Num(x) => varint_bytes(key_value(tag, WIRE_VARINT)) + varint_bytes(x as nat),
        FieldVal::Blob(b) => varint_bytes(key_value(tag, WIRE_LEN)) + varint_bytes(b.len()) + b,
    }
}

/// The present fields from index `i` on, written in field-number order.
pub open spec fn encode_fields_from(fields: Seq<Option<FieldVal>>, i: nat) -> Seq<u8>
    decreases fields.len() - i,
{
    if i < fields.len() {
        (match fields[i as int] {
            Some(v) => encode_field(i + 1, v),
            None => Seq::empty(),
        }) + encode_fields_from(fields, i + 1)
    } else {
        Seq::empty()
    }
}

/// The bytes of a message whose present fields are `fields`.
pub open spec fn encode_fields(fields: Seq<Option<FieldVal>>) -> Seq<u8> {
    encode_fields_from(fields, 0)
}

/// `v` can stand in a field of kind `kind`.
pub open spec fn value_fits(kind: FieldKind, v: FieldVal) -> bool {
    match v {
        FieldVal::Num(_) => kind == FieldKind::Varint,
        FieldVal::Blob(b) => b.len() <= u64::MAX && (kind == FieldKind::Bytes || (kind
            == FieldKind::Text && valid_utf8(b))),
    }
}

/// `fields` is a row of values for the fields that `schema` describes.
pub open spec fn fields_fit(fields: Seq<Option<FieldVal>>, schema: Seq<FieldKind>) -> bool {
    &&& fields.len() == schema.len()
    &&& schema.len() <= MAX_TAG
    &&& forall|j: int|
        0 <= j < fields.len() ==> (#[trigger] fields[j] matches Some(v) ==> value_fits(
            schema[j],
            v,
        ))
}

/// `acc` with the present fields of `fields` from index `i` on laid over it.
pub open spec fn overlay(acc: Seq<Option<FieldVal>>, fields: Seq<Option<FieldVal>>, i: nat) -> Seq<
    Option<FieldVal>,
> {
    Seq::new(
        acc.len(),
        |j: int|
            if j >= i && fields[j] is Some {
                fields[j]
            } else {
                acc[j]
            },
    )
}

proof fn lemma_decode_one_field(
    tag: nat,
    v: FieldVal,
    tail: Seq<u8>,
    schema: Seq<FieldKind>,
    acc: Seq<Option<FieldVal>>,
)
    requires
        1 <= tag <= schema.len(),
        schema.len() <= MAX_TAG,
        value_fits(schema[tag - 1], v),
    ensures
        decode_fields_from(encode_field(tag, v) + tail, schema, acc) == decode_fields_from(
            tail,
            schema,
            acc.update(tag - 1, Some(v)),
        ),
{
    let kind = schema[tag - 1];
    let bytes = encode_field(tag, v) + tail;
    match v {
        FieldVal::Num(x) => {
            let kb = varint_bytes(key_value(tag, WIRE_VARINT));
            let vb = varint_bytes(x as nat);
            assert(bytes =~= kb + (vb + tail));
            lemma_key_roundtrip(tag, WIRE_VARINT, vb + tail);
            lemma_varint_bytes_nonempty(key_value(tag, WIRE_VARINT));
            let rest = bytes.subrange(kb.len() as int, bytes.len() as int);
            assert(rest =~= vb + tail);
            lemma_varint_roundtrip(x as nat, tail);
            assert(rest.subrange(vb.len() as int, rest.len() as int) =~= tail);
            assert(bytes.subrange((kb.len() + vb.len()) as int, bytes.len() as int) =~= tail);
        },
        FieldVal::Blob(b) => {
            let kb = varint_bytes(key_value(tag, WIRE_LEN));
            let lb = varint_bytes(b.len());
            assert(bytes =~= kb + (lb + (b + tail)));
            lemma_key_roundtrip(tag, WIRE_LEN, lb + (b + tail));
            lemma_varint_bytes_nonempty(key_value(tag, WIRE_LEN));
            let rest = bytes.subrange(kb.len() as int, bytes.len() as int);
            assert(rest =~= lb + (b + tail));
            lemma_varint_roundtrip(b.len(), b + tail);
            assert(rest.subrange(lb.len() as int, (lb.len() + b.len()) as int) =~= b);
            assert(rest.subrange((lb.len() + b.len()) as int, rest.len() as int) =~= tail);
            assert(bytes.subrange((kb.len() + lb.len() + b.len()) as int, bytes.len() as int)
                =~= tail);
        },
    }
}

proof fn lemma_decode_encoded_from(
    fields: Seq<Option<FieldVal>>,
    schema: Seq<FieldKind>,
    i: nat,
    acc: Seq<Option<FieldVal>>,
    tail: Seq<u8>,
)
    requires
        fields_fit(fields, schema),
        i <= fields.len(),
        acc.len() == fields.len(),
    ensures
        decode_fields_from(encode_fields_from(fields, i) + tail, schema, acc) == decode_fields_from(
            tail,
            schema,
            overlay(acc, fields, i),
        ),
    decreases fields.len() - i,
{
    if i < fields.len() {
        let rest = encode_fields_from(fields, i + 1) + tail;
        match fields[i as int] {
            Some(v) => {
                assert(value_fits(schema[i as int], v));
                assert(encode_fields_from(fields, i) + tail =~= encode_field(i + 1, v) + rest);
                lemma_decode_one_field(i + 1, v, rest, schema, acc);
                lemma_decode_encoded_from(
                    fields,
                    schema,
                    i + 1,
                    acc.update(i as int, Some(v)),
                    tail,
                );
                assert(overlay(acc.update(i as int, Some(v)), fields, i + 1) =~= overlay(
                    acc,
                    fields,
                    i,
                ));
            },
            None => {
                assert(encode_fields_from(fields, i) + tail =~= rest);
                lemma_decode_encoded_from(fields, schema, i + 1, acc, tail);
                assert(overlay(acc, fields, i + 1) =~= overlay(acc, fields, i));
            },
        }
    } else {
        assert(encode_fields_from(fields, i) + tail =~= tail);
        assert(overlay(acc, fields, i) =~= acc);
    }
}

/// Reading back the bytes written for a row of fields gives the same row.
pub proof fn lemma_fields_roundtrip(fields: Seq<Option<FieldVal>>, schema: Seq<FieldKind>)
    requires
        fields_fit(fields, schema),
    ensures
        decode_fields(encode_fields(fields), schema) == Ok::<_, FailureModel>(fields),
{
    lemma_decode_encoded_from(fields, schema, 0, no_fields(schema.len()), Seq::empty());
    assert(encode_fields(fields) + Seq::<u8>::empty() =~= encode_fields(fields));
    assert(overlay(no_fields(schema.len()), fields, 0) =~= fields);
}

/// Two messages written one after the other read as one message: each
/// field holds the later message's value where it has one, the earlier
/// one's otherwise.
pub proof fn lemma_concatenation_merges(
    first: Seq<Option<FieldVal>>,
    second: Seq<Option<FieldVal>>,
    schema: Seq<FieldKind>,
)
    requires
        fields_fit(first, schema),
        fields_fit(second, schema),
    ensures
        decode_fields(encode_fields(first) + encode_fields(second), schema) == Ok::<_, FailureModel>(
            overlay(first, second, 0),
        ),
{
    lemma_decode_encoded_from(first, schema, 0, no_fields(schema.len()), encode_fields(second));
    assert(overlay(no_fields(schema.len()), first, 0) =~= first);
    lemma_decode_encoded_from(second, schema, 0, first, Seq::empty());
    assert(encode_fields(second) + Seq::<u8>::empty() =~= encode_fields(second));
}

/// A varint field whose number the schema does not know is skipped: it
/// does not change what the message reads as.
pub proof fn lemma_unknown_varint_field_ignored(
    fields: Seq<Option<FieldVal>>,
    schema: Seq<FieldKind>,
    tag: nat,
    value: u64,
)
    requires
        fields_fit(fields, schema),
        schema.len() < tag <= MAX_TAG,
    ensures
        decode_fields(encode_fields(fields) + encode_field(tag, FieldVal::Num(value)), schema)
            == Ok::<_, FailureModel>(fields),
{
    let extra = encode_field(tag, FieldVal::Num(value));
    lemma_decode_encoded_from(fields, schema, 0, no_fields(schema.len()), extra);
    assert(overlay(no_fields(schema.len()), fields, 0) =~= fields);
    let kb = varint_bytes(key_value(tag, WIRE_VARINT));
    let vb = varint_bytes(value as nat);
    assert(extra =~= kb + (vb + Seq::empty()));
    lemma_key_roundtrip(tag, WIRE_VARINT, vb + Seq::empty());
    lemma_varint_bytes_nonempty(key_value(tag, WIRE_VARINT));
    let rest = extra.subrange(kb.len() as int, extra.len() as int);
    assert(rest =~= vb + Seq::empty());
    lemma_varint_roundtrip(value as nat, Seq::empty());
    assert(rest.subrange(vb.len() as int, rest.len() as int) =~= Seq::<u8>::empty());
    assert(extra.subrange((kb.len() + vb.len()) as int, extra.len() as int) =~= Seq::<u8>::empty());
    assert(key_parse(extra) == Ok::<(nat, nat, nat), Seq<char>>((tag, WIRE_VARINT as nat, kb.len())));
    assert(skip_len(WIRE_VARINT, tag as u32, rest) == Ok::<nat, Seq<char>>(vb.len()));
    assert(field_step(extra, schema, fields) == Ok::<_, FailureModel>((kb.len() + vb.len(), fields)));
    assert(decode_fields_from(Seq::empty(), schema, fields) == Ok::<_, FailureModel>(fields));
    assert(decode_fields_from(extra, schema, fields) == Ok::<_, FailureModel>(fields));
}

/// Calls `String::from_utf8`, which takes the bytes as a string exactly when
/// they are valid UTF-8, the string holding the characters they encode.
#[verifier::external_body]
fn string_from_utf8(bytes: Vec<u8>) -> (res: Option<String>)
    ensures
        res is Some <==> valid_utf8(bytes@),
        res matches Some(s) ==> s@ == decode_utf8(bytes@),
{
    match String::from_utf8(bytes) {
        Ok(s) => Some(s),
        Err(_) => None,
    }
}

/// Appends field number `tag` holding the varint `value`.
pub fn put_varint_field(tag: u32, value: u64, buf: &mut Vec<u8>)
    requires
        1 <= tag <= MAX_TAG,
    ensures
        final(buf)@ == old(buf)@ + encode_field(tag as nat, FieldVal::Num(value)),
{
    put_key(tag, WIRE_VARINT, buf);
    put_varint(value, buf);
    assert(buf@ =~= old(buf)@ + encode_field(tag as nat, FieldVal::Num(value)));
}

/// Appends field number `tag` holding the bytes `data`.
pub fn put_bytes_field(tag: u32, data: &[u8], buf: &mut Vec<u8>)
    requires
        1 <= tag <= MAX_TAG,
    ensures
        final(buf)@ == old(buf)@ + encode_field(tag as nat, FieldVal::Blob(data@)),
{
    put_key(tag, WIRE_LEN, buf);
    put_varint(data.len() as u64, buf);
    let ghost before = buf@;
    let mut k: usize = 0;
    while k < data.len()
        invariant
            k <= data.len(),
            buf@ == before + data@.subrange(0, k as int),
        decreases data.len() - k,
    {
        buf.push(data[k]);
        k = k + 1;
        assert(buf@ =~= before + data@.subrange(0, k as int));
    }
    assert(data@.subrange(0, data.len() as int) =~= data@);
    assert(buf@ =~= old(buf)@ + encode_field(tag as nat, FieldVal::Blob(data@)));
}

/// The name prost gives wire type `wt`.
fn wire_type_text(wt: u8) -> (name: &'static str)
    ensures
        name@ == wire_type_name(wt as nat),
{
    if wt == 0 {
        "Varint"
    } else if wt == 1 {
        "SixtyFourBit"
    } else if wt == 2 {
        "LengthDelimited"
    } else if wt == 3 {
        "StartGroup"
    } else if wt == 4 {
        "EndGroup"
    } else {
        "ThirtyTwoBit"
    }
}

/// The refusal of known field `idx` sent with wire type `actual` where
/// `expected` is due.
fn wrong_wire_type_failure(idx: usize, actual: u8, expected: u8) -> (f: DecodeFailure)
    ensures
        failure_is(f, (Some(idx as nat), wrong_wire_type(actual as nat, expected as nat))),
{
    let mut text = "invalid wire type: ".to_owned();
    text.append(wire_type_text(actual));
    text.append(" (expected ");
    text.append(wire_type_text(expected));
    text.append(")");
    DecodeFailure { field: Some(idx), error: WireError::Malformed(text) }
}

/// The refusal of known field `idx` for `reason`.
fn field_failure(idx: usize, reason: &str) -> (f: DecodeFailure)
    ensures
        failure_is(f, (Some(idx as nat), reason@)),
{
    DecodeFailure { field: Some(idx), error: refused_because(reason) }
}

/// The refusal prost raised with `e`, which reads as `description`.
fn prost_failure(e: prost::DecodeError, Ghost(description): Ghost<Seq<char>>) -> (f: DecodeFailure)
    requires
        error_text_is(e, description),
    ensures
        failure_is(f, (None, description)),
{
    DecodeFailure { field: None, error: refused(e) }
}

/// Reads the first field of `bytes` into `acc` as prost does: `Ok` with the
/// number of bytes the field takes exactly when `field_step` accepts it,
/// otherwise the refusal it describes.
fn read_field(bytes: &[u8], schema: &[FieldKind], acc: &mut Vec<Option<FieldValue>>) -> (res: Result<
    usize,
    DecodeFailure,
>)
    requires
        old(acc)@.len() == schema@.len(),
        row_has_kinds(old(acc)@, schema@),
    ensures
        final(acc)@.len() == schema@.len(),
        row_has_kinds(final(acc)@, schema@),
        match field_step(bytes@, schema@, field_views(old(acc)@)) {
            Ok((m, next)) => res == Ok::<usize, DecodeFailure>(m as usize) && field_views(final(acc)@) == next,
            Err(fm) => res matches Err(f) && failure_is(f, fm),
        },
{
    let ghost acc_before = field_views(acc@);
    proof {
        lemma_varint_parse_range(bytes@);
    }
    let (tag, wt, after_key) = match take_key(bytes) {
        Ok(key) => key,
        Err(e) => {
            let ghost d = match key_parse(bytes@) {
                Err(d) => d,
                Ok(_) => Seq::empty(),
            };
            return Err(prost_failure(e, Ghost(d)));
        },
    };
    let value_start = bytes.len() - after_key;
    let value_bytes = &bytes[value_start..bytes.len()];
    if 1 <= tag && (tag as usize) <= schema.len() {
        let idx = (tag - 1) as usize;
        let kind = schema[idx];
        proof {
            lemma_varint_parse_range(value_bytes@);
        }
        match kind {
            FieldKind::Varint => {
                if wt != WIRE_VARINT {
                    return Err(wrong_wire_type_failure(idx, wt, WIRE_VARINT));
                }
                let (x, left) = match take_varint(value_bytes) {
                    Ok(r) => r,
                    Err(_) => return Err(field_failure(idx, "invalid varint")),
                };
                acc.set(idx, Some(FieldValue::Varint(x)));
                assert(field_views(acc@) =~= acc_before.update(idx as int, Some(FieldVal::Num(x))));
                Ok(bytes.len() - left)
            },
            _ => {
                if wt != WIRE_LEN {
                    return Err(wrong_wire_type_failure(idx, wt, WIRE_LEN));
                }
                let (l, left) = match take_varint(value_bytes) {
                    Ok(r) => r,
                    Err(_) => return Err(field_failure(idx, "invalid varint")),
                };
                if l > left as u64 {
                    return Err(field_failure(idx, "buffer underflow"));
                }
                let data_start = bytes.len() - left;
                let data_end = data_start + l as usize;
                let data = vstd::slice::slice_to_vec(&bytes[data_start..data_end]);
                let ghost m = value_bytes@.len() - left;
                assert(data@ =~= value_bytes@.subrange(m as int, (m + l) as int));
                match kind {
                    FieldKind::Text => {
                        match string_from_utf8(data) {
                            Some(s) => {
                                acc.set(idx, Some(FieldValue::Text(s)));
                            },
                            None => return Err(
                                field_failure(idx, "invalid string value: data is not UTF-8 encoded"),
                            ),
                        }
                    },
                    _ => {
                        acc.set(idx, Some(FieldValue::Bytes(data)));
                    },
                }
                assert(field_views(acc@) =~= acc_before.update(
                    idx as int,
                    Some(FieldVal::Blob(value_bytes@.subrange(m as int, (m + l) as int))),
                ));
                Ok(data_end)
            },
        }
    } else {
        let left = match skip_unknown_field(wt, tag, value_bytes) {
            Ok(r) => r,
            Err(e) => {
                let ghost d = match skip_len(wt, tag, value_bytes@) {
                    Err(d) => d,
                    Ok(_) => Seq::empty(),
                };
                return Err(prost_failure(e, Ghost(d)));
            },
        };
        Ok(bytes.len() - left)
    }
}

/// A refusal that `decode_fields_from` puts on a known field names a field
/// of the schema.
pub proof fn lemma_failure_field_in_schema(
    bytes: Seq<u8>,
    schema: Seq<FieldKind>,
    acc: Seq<Option<FieldVal>>,
)
    ensures
        decode_fields_from(bytes, schema, acc) matches Err((Some(j), _)) ==> j < schema.len(),
    decreases bytes.len(),
{
    if bytes.len() != 0 {
        if let Ok((m, next)) = field_step(bytes, schema, acc) {
            if 1 <= m <= bytes.len() {
                lemma_failure_field_in_schema(
                    bytes.subrange(m as int, bytes.len() as int),
                    schema,
                    next,
                );
            }
        }
    }
}

/// The error prost displays for the refusal `f` met while reading a message
/// named `msg`: a refused known field (here named `field`) is shown with its
/// path, a refused key or unknown field as it stands.
pub(crate) fn located_error(f: DecodeFailure, msg: &str, field: &str) -> (e: WireError)
    ensures
        match f.error {
            WireError::Malformed(d) => match f.field {
                None => e == f.error,
                Some(_) => e matches WireError::Malformed(t) && t@ == decode_prefix() + msg@
                    + "."@ + field@ + ": "@ + d@,
            },
        },
{
    match f.field {
        None => f.error,
        Some(_) => match f.error {
            WireError::Malformed(d) => {
                let mut t = "failed to decode Protobuf message: ".to_owned();
                t.append(msg);
                t.append(".");
                t.append(field);
                t.append(": ");
                t.append(d.as_str());
                WireError::Malformed(t)
            },
        },
    }
}

/// Reads the fields of a message from `bytes` as prost does, field number
/// `j + 1` being of kind `schema[j]`: `Ok` with the last value of each known
/// field exactly when `decode_fields` accepts the bytes, otherwise the
/// refusal it describes.
pub fn decode_message_fields(bytes: &[u8], schema: &[FieldKind]) -> (res: Result<
    Vec<Option<FieldValue>>,
    DecodeFailure,
>)
    ensures
        match decode_fields(bytes@, schema@) {
            Ok(f) => res matches Ok(v) && field_views(v@) == f && v@.len() == schema@.len()
                && row_has_kinds(v@, schema@),
            Err(fm) => res matches Err(f) && failure_is(f, fm) && (fm.0 matches Some(j) ==> j
                < schema@.len()),
        },
{
    proof {
        lemma_failure_field_in_schema(bytes@, schema@, no_fields(schema@.len()));
    }
    let mut acc: Vec<Option<FieldValue>> = Vec::new();
    let mut k: usize = 0;
    while k < schema.len()
        invariant
            k <= schema@.len(),
            acc@.len() == k,
            forall|j: int| 0 <= j < k ==> acc@[j] is None,
        decreases schema.len() - k,
    {
        acc.push(None);
        k = k + 1;
    }
    assert(field_views(acc@) =~= no_fields(schema@.len()));
    let mut pos: usize = 0;
    assert(bytes@.subrange(0, bytes@.len() as int) =~= bytes@);
    while pos < bytes.len()
        invariant
            pos <= bytes@.len(),
            acc@.len() == schema@.len(),
            row_has_kinds(acc@, schema@),
            decode_fields(bytes@, schema@) == decode_fields_from(
                bytes@.subrange(pos as int, bytes@.len() as int),
                schema@,
                field_views(acc@),
            ),
        decreases bytes.len() - pos,
    {
        let rest = &bytes[pos..bytes.len()];
        let m = match read_field(rest, schema, &mut acc) {
            Ok(m) => m,
            Err(e) => return Err(e),
        };
        assert(rest@.subrange(m as int, rest@.len() as int) =~= bytes@.subrange(
            (pos + m) as int,
            bytes@.len() as int,
        ));
        pos = pos + m;
    }
    Ok(acc)
}

} // verus!
