//! LEB128 varints and protobuf field keys, read and written by prost's own
//! encoding functions, with the byte-level meaning of each call stated here.
use vstd::prelude::*;

verus! {

/// Largest field number protobuf accepts.
pub const MAX_TAG: u32 = 0x1fff_ffff;

/// Wire type of varint fields.
pub const WIRE_VARINT: u8 = 0;

/// Wire type of 8-byte fixed-width fields.
pub const WIRE_FIXED64: u8 = 1;

/// Wire type of length-delimited fields (strings, bytes, nested messages).
pub const WIRE_LEN: u8 = 2;

/// Wire type that opens a group.
pub const WIRE_START_GROUP: u8 = 3;

/// Wire type that closes a group.
pub const WIRE_END_GROUP: u8 = 4;

/// Wire type of 4-byte fixed-width fields.
pub const WIRE_FIXED32: u8 = 5;

/// The LEB128 bytes of `v`: seven bits per byte, least significant group
/// first, the high bit set on every byte but the last.
pub open spec fn varint_bytes(v: nat) -> Seq<u8>
    decreases v,
{
    if v < 128 {
        seq![v as u8]
    } else {
        seq![(v % 128 + 128) as u8] + varint_bytes(v / 128)
    }
}

/// Reading a varint whose group number `i` sits at `bytes[i]`: the value of
/// the groups from `i` on and the index just past the last byte. At most ten
/// bytes are read, and a tenth byte above 1 overflows 64 bits.
pub open spec fn varint_parse_at(bytes: Seq<u8>, i: nat) -> Option<(nat, nat)>
    decreases 10 - i,
{
    if i < 10 && i < bytes.len() {
        let b = bytes[i as int];
        if b < 128 {
            if i == 9 && b >= 2 {
                None
            } else {
                Some((b as nat, i + 1))
            }
        } else {
            match varint_parse_at(bytes, i + 1) {
                Some((v, end)) => Some(((b - 128) as nat + 128 * v, end)),
                None => None,
            }
        }
    } else {
        None
    }
}

/// The varint at the start of `bytes`: its value and how many bytes it takes.
pub open spec fn varint_parse(bytes: Seq<u8>) -> Option<(nat, nat)> {
    varint_parse_at(bytes, 0)
}

/// What every text of a refused message starts with.
pub open spec fn decode_prefix() -> Seq<char> {
    "failed to decode Protobuf message: "@
}

/// Why a varint is refused.
pub open spec fn invalid_varint() -> Seq<char> {
    "invalid varint"@
}

/// Why a length runs past the end of the bytes.
pub open spec fn buffer_underflow() -> Seq<char> {
    "buffer underflow"@
}

/// The decimal digit `d` (below ten).
pub open spec fn digit_char(d: nat) -> char {
    seq!['0', '1', '2', '3', '4', '5', '6', '7', '8', '9'][d as int]
}

/// `n` written in decimal.
pub open spec fn decimal(n: nat) -> Seq<char>
    decreases n,
{
    if n < 10 {
        seq![digit_char(n)]
    } else {
        decimal(n / 10) + seq![digit_char(n % 10)]
    }
}

/// A field key at the start of `bytes`: field number, wire type and the
/// number of bytes the key takes; or why it is refused. A key above
/// `u32::MAX`, a wire type above 5 and field number 0 are refused, in that
/// order of checks.
pub open spec fn key_parse(bytes: Seq<u8>) -> Result<(nat, nat, nat), Seq<char>> {
    match varint_parse(bytes) {
        Some((k, n)) => {
            if k > u32::MAX {
                Err("invalid key value: "@ + decimal(k))
            } else if k % 8 > 5 {
                Err("invalid wire type value: "@ + decimal(k % 8))
            } else if k / 8 == 0 {
                Err("invalid tag value: 0"@)
            } else {
                Ok((k / 8, k % 8, n))
            }
        },
        None => Err(invalid_varint()),
    }
}

/// What prost's `skip_field` gives for a group field of number `tag` when
/// `bytes` starts right after its start-group key: how many bytes the group
/// takes, or why it is refused.
pub uninterp spec fn skipped_group(tag: u32, bytes: Seq<u8>) -> Result<nat, Seq<char>>;

/// How many bytes the value of an unknown field with wire type `wt` takes at
/// the start of `bytes`, or why it is refused.
pub open spec fn skip_len(wt: u8, tag: u32, bytes: Seq<u8>) -> Result<nat, Seq<char>> {
    if wt == WIRE_VARINT {
        match varint_parse(bytes) {
            Some((_, n)) => Ok(n),
            None => Err(invalid_varint()),
        }
    } else if wt == WIRE_FIXED64 {
        if bytes.len() >= 8 {
            Ok(8)
        } else {
            Err(buffer_underflow())
        }
    } else if wt == WIRE_LEN {
        match varint_parse(bytes) {
            Some((l, n)) => if l <= bytes.len() - n {
                Ok(n + l)
            } else {
                Err(buffer_underflow())
            },
            None => Err(invalid_varint()),
        }
    } else if wt == WIRE_START_GROUP {
        skipped_group(tag, bytes)
    } else if wt == WIRE_FIXED32 {
        if bytes.len() >= 4 {
            Ok(4)
        } else {
            Err(buffer_underflow())
        }
    } else {
        Err("unexpected end group tag"@)
    }
}

/// Every text `to_string` gives for the prost error `e` is the prefix of a
/// refusal followed by `description`.
pub open spec fn error_text_is(e: prost::DecodeError, description: Seq<char>) -> bool {
    forall|s: String|
        #[trigger] vstd::string::to_string_from_display_ensures::<prost::DecodeError>(&e, s)
            ==> s@ == decode_prefix() + description
}

/// Largest value (exclusive) that the groups from number `i` on may carry
/// so that the whole varint stays below 2^64.
pub open spec fn group_limit(i: nat) -> nat
    decreases 9 - i,
{
    if i >= 9 {
        2
    } else {
        128 * group_limit((i + 1) as nat)
    }
}

proof fn lemma_group_limit_positive(i: nat)
    ensures
        group_limit(i) >= 2,
        i < 9 ==> group_limit(i) == 128 * group_limit(i + 1),
    decreases 9 - i,
{
    if i < 9 {
        lemma_group_limit_positive(i + 1);
    }
}

proof fn lemma_group_limit_first()
    ensures
        group_limit(0) == 0x1_0000_0000_0000_0000,
{
    reveal_with_fuel(group_limit, 10);
}

/// A varint read from group `i` on ends after byte `i`, within `bytes` and
/// within ten bytes, and its value fits the groups it used.
pub proof fn lemma_varint_parse_at_range(bytes: Seq<u8>, i: nat)
    ensures
        varint_parse_at(bytes, i) matches Some((v, end)) ==> i < end && end <= bytes.len() && end
            <= 10 && v < group_limit(i),
    decreases 10 - i,
{
    lemma_group_limit_positive(i);
    if i < 10 && i < bytes.len() {
        if bytes[i as int] >= 128 {
            lemma_varint_parse_at_range(bytes, i + 1);
        }
    }
}

/// A varint read from the start of `bytes` takes at least one byte, stays
/// within `bytes` and fits in 64 bits.
pub proof fn lemma_varint_parse_range(bytes: Seq<u8>)
    ensures
        varint_parse(bytes) matches Some((v, n)) ==> 1 <= n <= bytes.len() && n <= 10 && v
            <= u64::MAX,
{
    lemma_varint_parse_at_range(bytes, 0);
    lemma_group_limit_first();
}

/// A varint has at least one byte.
pub proof fn lemma_varint_bytes_nonempty(v: nat)
    ensures
        varint_bytes(v).len() >= 1,
    decreases v,
{
    if v >= 128 {
        lemma_varint_bytes_nonempty(v / 128);
    }
}

proof fn lemma_varint_parse_encoded_at(v: nat, bytes: Seq<u8>, i: nat)
    requires
        i <= 9,
        v < group_limit(i),
        i + varint_bytes(v).len() <= bytes.len(),
        bytes.subrange(i as int, (i + varint_bytes(v).len()) as int) == varint_bytes(v),
    ensures
        varint_parse_at(bytes, i) == Some((v, i + varint_bytes(v).len())),
    decreases v,
{
    let enc = varint_bytes(v);
    let ii = i as int;
    let l = enc.len() as int;
    lemma_varint_bytes_nonempty(v);
    lemma_group_limit_positive(i);
    assert(bytes[ii] == bytes.subrange(ii, ii + l)[0]);
    if v < 128 {
        assert(enc == seq![v as u8]);
    } else {
        let tail = varint_bytes(v / 128);
        let tl = tail.len() as int;
        assert(enc == seq![(v % 128 + 128) as u8] + tail);
        if i == 9 {
            assert(false);
        }
        lemma_group_limit_positive(i + 1);
        assert(v / 128 < group_limit(i + 1));
        assert(bytes.subrange(ii + 1, ii + 1 + tl) =~= tail) by {
            assert forall|j: int| 0 <= j < tl implies bytes.subrange(ii + 1, ii + 1 + tl)[j]
                == tail[j] by {
                assert(bytes.subrange(ii, ii + l)[j + 1] == enc[j + 1]);
            }
        }
        lemma_varint_parse_encoded_at(v / 128, bytes, i + 1);
    }
}

/// Reading back what `varint_bytes` wrote gives the value and its length,
/// whatever follows it.
pub proof fn lemma_varint_roundtrip(v: nat, rest: Seq<u8>)
    requires
        v <= u64::MAX,
    ensures
        varint_parse(varint_bytes(v) + rest) == Some((v, varint_bytes(v).len())),
{
    let bytes = varint_bytes(v) + rest;
    lemma_group_limit_first();
    assert(bytes.subrange(0, varint_bytes(v).len() as int) =~= varint_bytes(v));
    lemma_varint_parse_encoded_at(v, bytes, 0);
}

/// The varint that a key of field `tag` with wire type `wt` carries.
pub open spec fn key_value(tag: nat, wt: u8) -> nat {
    tag * 8 + wt as nat
}

/// Reading back a key written for field `tag` with wire type `wt` gives the
/// field number and wire type, whatever follows it.
pub proof fn lemma_key_roundtrip(tag: nat, wt: u8, rest: Seq<u8>)
    requires
        1 <= tag <= MAX_TAG,
        wt <= 5,
    ensures
        key_parse(varint_bytes(key_value(tag, wt)) + rest) == Ok::<(nat, nat, nat), Seq<char>>(
            (tag, wt as nat, varint_bytes(key_value(tag, wt)).len()),
        ),
{
    lemma_varint_roundtrip(key_value(tag, wt), rest);
}

#[verifier::external_type_specification]
#[verifier::external_body]
pub struct ExDecodeError(prost::DecodeError);

/// Calls `prost::encoding::encode_varint`, which appends the LEB128 bytes
/// of `value` to `buf`.
#[verifier::external_body]
pub(crate) fn put_varint(value: u64, buf: &mut Vec<u8>)
    ensures
        final(buf)@ == old(buf)@ + varint_bytes(value as nat),
{
    prost::encoding::encode_varint(value, buf)
}

/// Calls `prost::encoding::encode_key`, which appends the varint
/// `tag * 8 + wire_type` to `buf`.
#[verifier::external_body]
pub(crate) fn put_key(tag: u32, wire_type: u8, buf: &mut Vec<u8>)
    requires
        1 <= tag <= MAX_TAG,
        wire_type <= 5,
    ensures
        final(buf)@ == old(buf)@ + varint_bytes(key_value(tag as nat, wire_type)),
{
    let wt = match wire_type {
        0 => prost::encoding::WireType::Varint,
        1 => prost::encoding::WireType::SixtyFourBit,
        2 => prost::encoding::WireType::LengthDelimited,
        3 => prost::encoding::WireType::StartGroup,
        4 => prost::encoding::WireType::EndGroup,
        _ => prost::encoding::WireType::ThirtyTwoBit,
    };
    prost::encoding::encode_key(tag, wt, buf)
}

/// Calls `prost::encoding::decode_varint` on `bytes`: it succeeds exactly
/// when `varint_parse` does, with that value, and hands back how many bytes
/// are left after the varint.
#[verifier::external_body]
pub(crate) fn take_varint(bytes: &[u8]) -> (res: Result<(u64, usize), prost::DecodeError>)
    ensures
        match varint_parse(bytes@) {
            Some((v, n)) => res matches Ok((x, left)) && x == v && left == bytes@.len() - n,
            None => res matches Err(e) && error_text_is(e, invalid_varint()),
        },
{
    let mut cursor = bytes;
    match prost::encoding::decode_varint(&mut cursor) {
        Ok(v) => Ok((v, cursor.len())),
        Err(e) => Err(e),
    }
}

/// Calls `prost::encoding::decode_key` on `bytes`: it succeeds exactly when
/// `key_parse` does, with that field number and wire type, and hands back
/// how many bytes are left after the key; when it fails, its error reads as
/// the reason `key_parse` gives (prost raises it with no field path).
#[verifier::external_body]
pub(crate) fn take_key(bytes: &[u8]) -> (res: Result<(u32, u8, usize), prost::DecodeError>)
    ensures
        match key_parse(bytes@) {
            Ok((tag, wt, n)) => res matches Ok((t, w, left)) && t == tag && w == wt && left
                == bytes@.len() - n,
            Err(d) => res matches Err(e) && error_text_is(e, d),
        },
{
    let mut cursor = bytes;
    match prost::encoding::decode_key(&mut cursor) {
        Ok((tag, wt)) => Ok((tag, wt as u8, cursor.len())),
        Err(e) => Err(e),
    }
}

/// Calls `prost::encoding::skip_field` (with a fresh decode context) on the
/// bytes that follow the key of an unknown field: it succeeds exactly when
/// `skip_len` does, and hands back how many bytes are left after the field;
/// when it fails, its error reads as the reason `skip_len` gives (prost
/// raises it with no field path). For a group the outcome is what
/// `skipped_group` names; the rules by which prost walks a group are not
/// restated here.
#[verifier::external_body]
pub(crate) fn skip_unknown_field(wire_type: u8, tag: u32, bytes: &[u8]) -> (res: Result<
    usize,
    prost::DecodeError,
>)
    requires
        wire_type <= 5,
    ensures
        match skip_len(wire_type, tag, bytes@) {
            Ok(n) => res matches Ok(left) && n <= bytes@.len() && left == bytes@.len() - n,
            Err(d) => res matches Err(e) && error_text_is(e, d),
        },
        wire_type == WIRE_START_GROUP ==> match skipped_group(tag, bytes@) {
            Ok(n) => res matches Ok(left) && n <= bytes@.len() && left == bytes@.len() - n,
            Err(d) => res matches Err(e) && error_text_is(e, d),
        },
{
    let wt = match wire_type {
        0 => prost::encoding::WireType::Varint,
        1 => prost::encoding::WireType::SixtyFourBit,
        2 => prost::encoding::WireType::LengthDelimited,
        3 => prost::encoding::WireType::StartGroup,
        4 => prost::encoding::WireType::EndGroup,
        _ => prost::encoding::WireType::ThirtyTwoBit,
    };
    let mut cursor = bytes;
    match prost::encoding::skip_field(wt, tag, &mut cursor, prost::encoding::DecodeContext::default()) {
        Ok(()) => Ok(cursor.len()),
        Err(e) => Err(e),
    }
}

} // verus!
