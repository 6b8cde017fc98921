//! The error taxonomy shared by all decoders.

use vstd::prelude::*;

verus! {

#[verifier::external_type_specification]
#[verifier::external_body]
pub struct ExUtf8Error(std::str::Utf8Error);

/// Failure of a byte-level conversion (number, text) or of a binary decoder.
#[derive(Debug)]
pub enum CastError {
    /// A structural or semantic violation; holds the offending text.
    InvalidData(String),
    /// The bytes are not valid UTF-8.
    Utf8Error(std::str::Utf8Error),
}

/// Failure of a text (SDP, fmtp) parser.
#[derive(Debug)]
pub enum ParsingError {
    /// A structural or semantic violation; holds the offending text.
    InvalidData(String),
    /// A conversion of bytes to text or to a number failed.
    Utf8Error(CastError),
}

impl CastError {
    /// An `InvalidData` error holding `data`.
    pub fn from_str(data: &str) -> (r: CastError)
        ensures
            r matches CastError::InvalidData(s) && s@ == data@,
    {
        CastError::InvalidData(data.to_owned())
    }

    /// An `InvalidData` error holding `data` as text, or the UTF-8 error
    /// when `data` is not valid UTF-8.
    pub fn from_bytes(data: &[u8]) -> (r: CastError)
        ensures
            vstd::utf8::valid_utf8(data@) ==> (r matches CastError::InvalidData(s) && s@
                == vstd::utf8::decode_utf8(data@)),
            !vstd::utf8::valid_utf8(data@) ==> r is Utf8Error,
    {
        match crate::text::utf8_to_str(data) {
            Ok(s) => CastError::InvalidData(s.to_owned()),
            Err(e) => e,
        }
    }
}

impl ParsingError {
    /// An `InvalidData` error holding `data`.
    pub fn from_str(data: &str) -> (r: ParsingError)
        ensures
            r matches ParsingError::InvalidData(s) && s@ == data@,
    {
        ParsingError::InvalidData(data.to_owned())
    }

    /// An `InvalidData` error holding `data` as text, or a UTF-8 error
    /// when `data` is not valid UTF-8.
    pub fn from_bytes(data: &[u8]) -> (r: ParsingError)
        ensures
            vstd::utf8::valid_utf8(data@) ==> (r matches ParsingError::InvalidData(s) && s@
                == vstd::utf8::decode_utf8(data@)),
            !vstd::utf8::valid_utf8(data@) ==> r is Utf8Error,
    {
        match crate::text::utf8_to_str(data) {
            Ok(s) => ParsingError::InvalidData(s.to_owned()),
            Err(e) => ParsingError::Utf8Error(e),
        }
    }
}

} // verus!
