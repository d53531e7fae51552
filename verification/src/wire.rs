use vstd::prelude::*;

use vstd::utf8::encode_utf8;

verus! {

/// LEB128 encoding of `n`: seven bits per byte, least significant group
/// first, the high bit set on every byte but the last.
pub open spec fn varint_bytes(n: nat) -> Seq<u8>
    decreases n,
{
    if n < 128 {
        seq![n as u8]
    } else {
        seq![(n % 128 + 128) as u8] + varint_bytes(n / 128)
    }
}

/// The key of a protobuf field: the field number and the wire type
/// packed into one varint.
pub open spec fn key_bytes(field: nat, wire: nat) -> Seq<u8> {
    varint_bytes(field * 8 + wire)
}

/// A length-delimited protobuf field: key, payload length, payload.
pub open spec fn len_delimited_field(field: nat, payload: Seq<u8>) -> Seq<u8> {
    key_bytes(field, 2) + varint_bytes(payload.len()) + payload
}

/// A protobuf string field: length-delimited over the UTF-8 bytes.
pub open spec fn string_field(field: nat, s: Seq<char>) -> Seq<u8> {
    len_delimited_field(field, encode_utf8(s))
}

/// A protobuf uint32 field: key, then the value as a varint.
pub open spec fn uint32_field(field: nat, v: nat) -> Seq<u8> {
    key_bytes(field, 0) + varint_bytes(v)
}

/// Relies on prost::encoding::string::encode: appends the field key
/// (wire type 2), the byte length of the string as a varint, then the
/// string's UTF-8 bytes.
#[verifier::external_body]
pub(crate) fn encode_string_field(field: u32, value: &String, buf: &mut Vec<u8>)
    requires
        1 <= field <= 0x1FFF_FFFF,
    ensures
        final(buf)@ == old(buf)@ + string_field(field as nat, value@),
{
    prost::encoding::string::encode(field, value, buf);
}

/// Relies on prost::encoding::bytes::encode: appends the field key
/// (wire type 2), the payload length as a varint, then the payload.
#[verifier::external_body]
pub(crate) fn encode_bytes_field(field: u32, value: &Vec<u8>, buf: &mut Vec<u8>)
    requires
        1 <= field <= 0x1FFF_FFFF,
    ensures
        final(buf)@ == old(buf)@ + len_delimited_field(field as nat, value@),
{
    prost::encoding::bytes::encode(field, value, buf);
}

/// Relies on prost::encoding::uint32::encode: appends the field key
/// (wire type 0), then the value as a varint.
#[verifier::external_body]
pub(crate) fn encode_uint32_field(field: u32, value: u32, buf: &mut Vec<u8>)
    requires
        1 <= field <= 0x1FFF_FFFF,
    ensures
        final(buf)@ == old(buf)@ + uint32_field(field as nat, value as nat),
{
    prost::encoding::uint32::encode(field, &value, buf);
}

} // verus!
