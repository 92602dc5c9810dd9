//! Module bytes as base64 text, the form in which a manifest carries them.

use crate::error::ValidationError;
use ::base64::Engine;
use vstd::prelude::*;

verus! {

/// The text that the standard base64 alphabet, with padding, gives for `data`.
pub uninterp spec fn base64_text(data: Seq<u8>) -> Seq<char>;

/// The bytes that `text` stands for in the standard base64 alphabet with
/// padding, or none where `text` is no such encoding.
pub uninterp spec fn base64_data(text: Seq<char>) -> Option<Seq<u8>>;

/// `base64::Engine::encode` of the engine `general_purpose::STANDARD`: the
/// encoding of `data`, which depends on `data` alone. It fails only for an
/// input of which four thirds do not fit in `usize`, longer than a slice can be.
#[verifier::external_body]
fn encode(data: &[u8]) -> (text: String)
    ensures
        text@ == base64_text(data@),
{
    ::base64::engine::general_purpose::STANDARD.encode(data)
}

/// `base64::Engine::decode` of the engine `general_purpose::STANDARD`: the
/// bytes that `text` encodes, which depend on `text` alone, or none where the
/// engine reports an invalid byte, length, last symbol or padding.
#[verifier::external_body]
fn decode(text: &str) -> (data: Option<Vec<u8>>)
    ensures
        match data {
            Some(bytes) => base64_data(text@) == Some(bytes@),
            None => base64_data(text@) is None,
        },
{
    ::base64::engine::general_purpose::STANDARD.decode(text).ok()
}

/// The base64 text that a manifest carries for the module bytes `v`.
pub fn serialize(v: &Vec<u8>) -> (text: String)
    ensures
        text@ == base64_text(v@),
{
    encode(v.as_slice())
}

/// The module bytes that the base64 text `text` of a manifest stands for.
/// Text that is no base64 encoding is refused.
pub fn deserialize(text: &str) -> (r: Result<Vec<u8>, ValidationError>)
    ensures
        match r {
            Ok(bytes) => base64_data(text@) == Some(bytes@),
            Err(_) => base64_data(text@) is None,
        },
{
    bytes_or_invalid(decode(text))
}

/// What a decoder's answer means for a manifest: bytes, or a refusal where
/// the decoder found none.
pub fn bytes_or_invalid(decoded: Option<Vec<u8>>) -> (r: Result<Vec<u8>, ValidationError>)
    ensures
        match decoded {
            Some(bytes) => r == Ok::<Vec<u8>, ValidationError>(bytes),
            None => r == Err::<Vec<u8>, ValidationError>(ValidationError::Malformed),
        },
{
    match decoded {
        Some(bytes) => Ok(bytes),
        None => Err(ValidationError::Malformed),
    }
}

} // verus!
