//! Protobuf framing used by the messages and transactions the relayer submits.
use vstd::prelude::*;
use vstd::utf8::encode_utf8;

verus! {

#[verifier::external_type_specification]
#[verifier::external_body]
pub struct ExEncodeError(prost::EncodeError);

#[verifier::external_type_specification]
#[verifier::external_body]
pub struct ExDecodeError(prost::DecodeError);

/// Number of bytes of the LEB128 varint that encodes `n`.
pub open spec fn varint_len(n: nat) -> nat
    decreases n,
{
    if n < 128 {
        1
    } else {
        1 + varint_len(n / 128)
    }
}

/// The LEB128 varint that encodes `n`, low groups first.
pub open spec fn varint(n: nat) -> Seq<u8>
    decreases n,
{
    if n < 128 {
        seq![n as u8]
    } else {
        seq![((n % 128) + 128) as u8] + varint(n / 128)
    }
}

/// A length-delimited field whose one-byte key is `key`.
pub open spec fn bytes_field(key: u8, data: Seq<u8>) -> Seq<u8> {
    seq![key] + varint(data.len()) + data
}

/// A proto3 singular bytes or string field: left out when empty.
pub open spec fn singular_field(key: u8, data: Seq<u8>) -> Seq<u8> {
    if data.len() == 0 {
        Seq::empty()
    } else {
        bytes_field(key, data)
    }
}

/// Length of a proto3 singular bytes or string field of tag below 16 holding `n` bytes.
pub open spec fn singular_field_len(n: nat) -> nat {
    if n == 0 {
        0
    } else {
        1 + varint_len(n) + n
    }
}

/// Byte length of a string once written as UTF-8.
pub open spec fn utf8_len(s: Seq<char>) -> nat {
    encode_utf8(s).len()
}

} // verus!
