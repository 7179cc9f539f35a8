//! The payload of a mapper console event travels as base64 text in the event's
//! JSON; these functions turn that text into the payload's bytes and back.
//!
//! The payload bytes are an encoded `MapperAttach` protobuf message. That
//! message type, defined by `helium_proto`, is not a dependency of this crate,
//! so decoding the bytes as a message (which refuses malformed bytes with
//! "invalid payload") and encoding a message are not part of this library:
//! these functions stop at the bytes.

use vstd::prelude::*;

verus! {

#[verifier::external_type_specification]
#[verifier::external_body]
pub struct ExBase64DecodeError(base64::DecodeError);

/// Why a payload could not be read.
#[derive(Debug, PartialEq, Eq, Structural)]
pub enum PayloadError {
    /// The payload is not valid base64.
    InvalidBase64,
}

impl PayloadError {
    /// The message reported for the error.
    pub fn message(&self) -> (m: &'static str)
        ensures
            m@ == "invalid payload base64"@,
    {
        "invalid payload base64"
    }
}

/// The bytes that standard base64 (with padding) decodes `text` to, or `None`
/// when the text is not valid base64.
pub uninterp spec fn base64_decoded(text: Seq<char>) -> Option<Seq<u8>>;

/// The symbol of a 6-bit value in the standard base64 alphabet.
pub open spec fn base64_symbol(v: int) -> char {
    if v < 26 {
        (65 + v) as char
    } else if v < 52 {
        (97 + v - 26) as char
    } else if v < 62 {
        (48 + v - 52) as char
    } else if v == 62 {
        '+'
    } else {
        '/'
    }
}

/// The standard base64 text of `data`, with padding: each group of three bytes
/// becomes four symbols of six bits each, and a last group of one or two bytes
/// is completed with `=`.
pub open spec fn base64_standard(data: Seq<u8>) -> Seq<char>
    decreases data.len(),
{
    if data.len() == 0 {
        Seq::empty()
    } else if data.len() == 1 {
        seq![base64_symbol((data[0] as int) / 4), base64_symbol(((data[0] as int) % 4) * 16), '=', '=']
    } else if data.len() == 2 {
        seq![
            base64_symbol((data[0] as int) / 4),
            base64_symbol(((data[0] as int) % 4) * 16 + (data[1] as int) / 16),
            base64_symbol(((data[1] as int) % 16) * 4),
            '=',
        ]
    } else {
        seq![
            base64_symbol((data[0] as int) / 4),
            base64_symbol(((data[0] as int) % 4) * 16 + (data[1] as int) / 16),
            base64_symbol(((data[1] as int) % 16) * 4 + (data[2] as int) / 64),
            base64_symbol((data[2] as int) % 64),
        ] + base64_standard(data.skip(3))
    }
}

/// Decodes standard base64 with `base64::decode`; the result is named by
/// `base64_decoded`.
#[verifier::external_body]
fn base64_decode(text: &str) -> (decoded: Result<Vec<u8>, base64::DecodeError>)
    ensures
        match decoded {
            Ok(bytes) => base64_decoded(text@) == Some(bytes@),
            Err(_) => base64_decoded(text@) is None,
        },
{
    base64::decode(text)
}

/// Encodes bytes as standard base64 with padding, with `base64::encode`.
/// Decoding the text with the same configuration gives the bytes back (the
/// round trip that the crate's tests check).
#[verifier::external_body]
fn base64_encode(data: &[u8]) -> (text: String)
    ensures
        text@ == base64_standard(data@),
        base64_decoded(text@) == Some(data@),
{
    base64::encode(data)
}

/// What reading a payload from its text gives.
pub open spec fn payload_from_text(text: Seq<char>) -> Result<Seq<u8>, PayloadError> {
    match base64_decoded(text) {
        Some(bytes) => Ok(bytes),
        None => Err(PayloadError::InvalidBase64),
    }
}

/// Reads the bytes of a payload from its base64 text. The bytes are not
/// decoded further as a `MapperAttach` message: that is left to the caller.
pub fn deserialize(value: &str) -> (payload: Result<Vec<u8>, PayloadError>)
    ensures
        match payload {
            Ok(bytes) => payload_from_text(value@) == Ok::<Seq<u8>, PayloadError>(bytes@),
            Err(e) => payload_from_text(value@) == Err::<Seq<u8>, PayloadError>(e),
        },
{
    match base64_decode(value) {
        Ok(bytes) => Ok(bytes),
        Err(_) => Err(PayloadError::InvalidBase64),
    }
}

/// Writes the bytes of a payload (an already encoded message) as base64 text;
/// reading that text gives the bytes back.
pub fn serialize(value: &[u8]) -> (text: String)
    ensures
        text@ == base64_standard(value@),
        payload_from_text(text@) == Ok::<Seq<u8>, PayloadError>(value@),
{
    base64_encode(value)
}

} // verus!
