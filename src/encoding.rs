//! base64 and UTF-8 at the byte level.

use vstd::prelude::*;
use vstd::utf8::{decode_utf8, valid_utf8};

verus! {

#[verifier::external_type_specification]
#[verifier::external_body]
pub struct ExDecodeError(base64::DecodeError);

#[verifier::external_type_specification]
#[verifier::external_body]
pub struct ExFromUtf8Error(std::string::FromUtf8Error);

/// The bytes that `base64::decode_config` reads from `t` with the standard alphabet.
pub uninterp spec fn std_b64_decoded(t: Seq<char>) -> Option<Seq<u8>>;

/// The bytes that `base64::decode_config` reads from `t` with the URL-safe alphabet.
pub uninterp spec fn url_b64_decoded(t: Seq<char>) -> Option<Seq<u8>>;

/// The text that `base64::encode_config` writes for `b`: standard alphabet, padded.
pub uninterp spec fn std_b64_encoded(b: Seq<u8>) -> Seq<char>;

/// The text that `base64::encode_config` writes for `b`: URL-safe alphabet, padded.
pub uninterp spec fn url_b64_encoded(b: Seq<u8>) -> Seq<char>;

/// The text that `base64::encode_config` writes for `b`: URL-safe alphabet, no padding.
pub uninterp spec fn url_b64_unpadded(b: Seq<u8>) -> Seq<char>;

/// Relies on `base64::decode_config` with `base64::STANDARD`.
#[verifier::external_body]
pub(crate) fn decode_std(t: &str) -> (r: Result<Vec<u8>, base64::DecodeError>)
    ensures
        (r is Ok) == (std_b64_decoded(t@) is Some),
        r matches Ok(v) ==> std_b64_decoded(t@) == Some(v@),
{
    base64::decode_config(t, base64::STANDARD)
}

/// Relies on `base64::decode_config` with `base64::URL_SAFE_NO_PAD`; the decoder
/// of this version reads padding whatever the configuration says.
#[verifier::external_body]
pub(crate) fn decode_url(t: &str) -> (r: Result<Vec<u8>, base64::DecodeError>)
    ensures
        (r is Ok) == (url_b64_decoded(t@) is Some),
        r matches Ok(v) ==> url_b64_decoded(t@) == Some(v@),
{
    base64::decode_config(t, base64::URL_SAFE_NO_PAD)
}

/// Relies on `base64::encode_config` with `base64::STANDARD`.
#[verifier::external_body]
pub(crate) fn encode_std(b: &[u8]) -> (r: String)
    ensures
        r@ == std_b64_encoded(b@),
{
    base64::encode_config(b, base64::STANDARD)
}

/// A character of the URL-safe base64 alphabet, or the padding `=`.
pub open spec fn url_b64_char(c: char) -> bool {
    ('A' <= c && c <= 'Z') || ('a' <= c && c <= 'z') || ('0' <= c && c <= '9') || c == '-'
        || c == '_' || c == '='
}

/// Relies on `base64::encode_config` with `base64::URL_SAFE`: the text is made
/// of the URL-safe alphabet and padding, and decodes back to `b`.
#[verifier::external_body]
pub(crate) fn encode_url(b: &[u8]) -> (r: String)
    ensures
        r@ == url_b64_encoded(b@),
        forall|i: int| 0 <= i < r@.len() ==> url_b64_char(#[trigger] r@[i]),
        url_b64_decoded(r@) == Some(b@),
{
    base64::encode_config(b, base64::URL_SAFE)
}

/// Relies on `base64::encode_config` with `base64::URL_SAFE_NO_PAD`.
#[verifier::external_body]
pub(crate) fn encode_url_unpadded(b: &[u8]) -> (r: String)
    ensures
        r@ == url_b64_unpadded(b@),
{
    base64::encode_config(b, base64::URL_SAFE_NO_PAD)
}

/// Relies on `String::from_utf8`: it accepts exactly the valid UTF-8 byte strings.
#[verifier::external_body]
pub(crate) fn utf8_string(b: Vec<u8>) -> (r: Result<String, std::string::FromUtf8Error>)
    ensures
        (r is Ok) == valid_utf8(b@),
        r matches Ok(s) ==> s@ == decode_utf8(b@),
{
    String::from_utf8(b)
}

/// The characters that the text `t` stands for, read as base64 of UTF-8 (standard alphabet).
pub open spec fn std_b64_text(t: Seq<char>) -> Option<Seq<char>> {
    match std_b64_decoded(t) {
        Some(b) => if valid_utf8(b) { Some(decode_utf8(b)) } else { None },
        None => None,
    }
}

/// The characters that the text `t` stands for, read as base64 of UTF-8 (URL-safe alphabet).
pub open spec fn url_b64_text(t: Seq<char>) -> Option<Seq<char>> {
    match url_b64_decoded(t) {
        Some(b) => if valid_utf8(b) { Some(decode_utf8(b)) } else { None },
        None => None,
    }
}

/// Why a base64 text did not give characters.
#[derive(Debug, Clone, Copy, PartialEq, Eq, Structural)]
pub enum TextError {
    /// The text is not base64.
    Base64,
    /// The decoded bytes are not UTF-8.
    Utf8,
}

/// Reads `t` as base64 (standard alphabet) of UTF-8 text.
pub fn std_text(t: &str) -> (r: Result<Vec<char>, TextError>)
    ensures
        r matches Ok(v) ==> std_b64_text(t@) == Some(v@),
        r == Err::<Vec<char>, TextError>(TextError::Base64) <==> std_b64_decoded(t@) is None,
        r is Err <==> std_b64_text(t@) is None,
{
    match decode_std(t) {
        Ok(b) => match utf8_string(b) {
            Ok(s) => Ok(crate::text::chars_of(&s)),
            Err(_) => Err(TextError::Utf8),
        },
        Err(_) => Err(TextError::Base64),
    }
}

/// Reads `t` as base64 (URL-safe alphabet) of UTF-8 text.
pub fn url_text(t: &str) -> (r: Result<Vec<char>, TextError>)
    ensures
        r matches Ok(v) ==> url_b64_text(t@) == Some(v@),
        r == Err::<Vec<char>, TextError>(TextError::Base64) <==> url_b64_decoded(t@) is None,
        r is Err <==> url_b64_text(t@) is None,
{
    match decode_url(t) {
        Ok(b) => match utf8_string(b) {
            Ok(s) => Ok(crate::text::chars_of(&s)),
            Err(_) => Err(TextError::Utf8),
        },
        Err(_) => Err(TextError::Base64),
    }
}

} // verus!
