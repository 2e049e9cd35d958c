//! Decoding of the extracted payload: strict standard-alphabet base64,
//! followed by a UTF-8 validity check, as the identity provider's
//! SAML-POST binding requires.

use vstd::prelude::*;
use vstd::utf8::valid_utf8;
use base64::Engine;
use crate::extract::ParseError;

verus! {

/// What the standard-alphabet, padded base64 encoding of `bytes` is.
pub uninterp spec fn base64_encoding(bytes: Seq<u8>) -> Seq<u8>;

/// Relies on base64's `STANDARD` engine (`Engine::decode`): configured with
/// canonical padding required and trailing bits rejected, a decode succeeds
/// exactly on the canonical encoding of some byte string, and the decoded
/// bytes are the unique preimage of the input under that encoding.
#[verifier::external_body]
fn base64_decode(token: &[u8]) -> (r: Result<Vec<u8>, ParseError>)
    ensures
        match r {
            Ok(b) => token@ == base64_encoding(b@) && (forall|d: Seq<u8>|
                token@ == #[trigger] base64_encoding(d) ==> d == b@),
            Err(e) => e == ParseError::InvalidEncoding && (forall|d: Seq<u8>|
                token@ != #[trigger] base64_encoding(d)),
        },
{
    match base64::engine::general_purpose::STANDARD.decode(token) {
        Ok(b) => Ok(b),
        Err(_) => Err(ParseError::InvalidEncoding),
    }
}

/// Relies on std's `str::from_utf8`: it returns `Ok` exactly when the bytes
/// are valid UTF-8, the property `vstd::utf8::valid_utf8` formalises.
#[verifier::external_body]
fn utf8_valid(bytes: &[u8]) -> (r: bool)
    ensures
        r == valid_utf8(bytes@),
{
    core::str::from_utf8(bytes).is_ok()
}

/// Decodes the extracted hidden-input value: the token must be canonical
/// standard base64 and the decoded bytes valid UTF-8, else the encoding is
/// invalid.
pub fn decode_token(token: &[u8]) -> (r: Result<Vec<u8>, ParseError>)
    ensures
        match r {
            Ok(d) => token@ == base64_encoding(d@) && valid_utf8(d@),
            Err(e) => e == ParseError::InvalidEncoding && (forall|d: Seq<u8>|
                !(token@ == #[trigger] base64_encoding(d) && valid_utf8(d))),
        },
{
    match base64_decode(token) {
        Err(e) => Err(e),
        Ok(d) => {
            if utf8_valid(d.as_slice()) {
                Ok(d)
            } else {
                proof {
                    assert forall|dd: Seq<u8>| !(token@ == #[trigger] base64_encoding(dd)
                        && valid_utf8(dd)) by {
                        if token@ == base64_encoding(dd) {
                            assert(dd == d@);
                        }
                    }
                }
                Err(ParseError::InvalidEncoding)
            }
        },
    }
}

} // verus!
