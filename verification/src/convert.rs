//! How values become bytes on their way into guest memory, and bytes become
//! values on their way out.

use crate::engine::utf8;
use crate::error::BridgeError;
use crate::handle::{lemma_replaced_then_read, MemoryHandle};
use vstd::prelude::*;
use vstd::slice::slice_to_vec;
use vstd::string::StringSliceAdditionalSpecFns;
use vstd::utf8::{
    decode_utf8,
    encode_utf8,
    encode_utf8_decode_utf8,
    encode_utf8_valid_utf8,
    valid_utf8,
};

verus! {

/// A value that can be written to guest memory.
pub trait ToBytes: View {
    /// The bytes that stand for a value, or none where it has no encoding.
    spec fn encoding(value: Self::V) -> Option<Seq<u8>>;

    /// The bytes that stand for the value.
    fn to_bytes(&self) -> (r: Result<Vec<u8>, BridgeError>)
        ensures
            match r {
                Ok(bytes) => Self::encoding(self@) == Some(bytes@),
                Err(e) => Self::encoding(self@) is None && e == BridgeError::Decode,
            },
    ;
}

/// A value that can be read from guest memory.
pub trait FromBytes: View + Sized {
    /// The value that bytes stand for, or none where they stand for no value.
    spec fn decoding(bytes: Seq<u8>) -> Option<Self::V>;

    /// The value that `data` stands for.
    fn from_bytes(data: &[u8]) -> (r: Result<Self, BridgeError>)
        ensures
            match r {
                Ok(value) => Self::decoding(data@) == Some(value@),
                Err(e) => Self::decoding(data@) is None && e == BridgeError::Decode,
            },
    ;
}

/// The bytes as text: the text whose UTF-8 encoding they are, or a refusal
/// where they are no such encoding.
pub fn text_of<'a>(bytes: &'a [u8]) -> (r: Result<&'a str, BridgeError>)
    ensures
        match r {
            Ok(text) => valid_utf8(bytes@) && text.spec_bytes() == bytes@ && text@ == decode_utf8(
                bytes@,
            ),
            Err(e) => !valid_utf8(bytes@) && e == BridgeError::Decode,
        },
{
    match utf8(bytes) {
        Some(text) => {
            proof {
                encode_utf8_decode_utf8(text@);
            }
            Ok(text)
        },
        None => Err(BridgeError::Decode),
    }
}

/// Every value of the type that has an encoding is what its encoding decodes to.
pub open spec fn canonical<V: ToBytes + FromBytes>() -> bool {
    forall|value: V::V|
        (#[trigger] V::encoding(value)) matches Some(bytes) ==> V::decoding(bytes) == Some(value)
}

impl ToBytes for Vec<u8> {
    open spec fn encoding(value: Seq<u8>) -> Option<Seq<u8>> {
        Some(value)
    }

    fn to_bytes(&self) -> (r: Result<Vec<u8>, BridgeError>) {
        Ok(slice_to_vec(self.as_slice()))
    }
}

impl FromBytes for Vec<u8> {
    open spec fn decoding(bytes: Seq<u8>) -> Option<Seq<u8>> {
        Some(bytes)
    }

    fn from_bytes(data: &[u8]) -> (r: Result<Self, BridgeError>) {
        Ok(slice_to_vec(data))
    }
}

impl ToBytes for String {
    open spec fn encoding(value: Seq<char>) -> Option<Seq<u8>> {
        Some(encode_utf8(value))
    }

    fn to_bytes(&self) -> (r: Result<Vec<u8>, BridgeError>) {
        Ok(slice_to_vec(self.as_str().as_bytes()))
    }
}

impl FromBytes for String {
    open spec fn decoding(bytes: Seq<u8>) -> Option<Seq<char>> {
        if valid_utf8(bytes) {
            Some(decode_utf8(bytes))
        } else {
            None
        }
    }

    fn from_bytes(data: &[u8]) -> (r: Result<Self, BridgeError>) {
        match text_of(data) {
            Ok(text) => Ok(text.to_owned()),
            Err(e) => Err(e),
        }
    }
}

/// Byte strings are what their encoding decodes to.
pub proof fn lemma_bytes_canonical()
    ensures
        canonical::<Vec<u8>>(),
{
}

/// Texts are what their encoding decodes to.
pub proof fn lemma_text_canonical()
    ensures
        canonical::<String>(),
{
    assert forall|value: Seq<char>|
        (#[trigger] <String as ToBytes>::encoding(value)) is Some implies <String as FromBytes>::decoding(
        <String as ToBytes>::encoding(value)->0,
    ) == Some(value) by {
        encode_utf8_valid_utf8(value);
        encode_utf8_decode_utf8(value);
    }
}

/// A value written into a block of memory is the value read back from the
/// block, for every type whose values are what their encoding decodes to.
pub proof fn lemma_value_round_trip<V: ToBytes + FromBytes>(
    value: V::V,
    handle: MemoryHandle,
    memory: Seq<u8>,
)
    requires
        canonical::<V>(),
        V::encoding(value) is Some,
        V::encoding(value)->0.len() == handle.length,
        handle.fits(memory.len()),
    ensures
        V::decoding(handle.bytes_in(handle.replaced(memory, V::encoding(value)->0))) == Some(value),
{
    lemma_replaced_then_read(handle, memory, V::encoding(value)->0);
}

} // verus!
