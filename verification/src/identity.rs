//! Decoding of the opaque user identifier a remote identity query returns:
//! a base64 token that decodes to a UTF-8 string.

use vstd::prelude::*;

use base64::Engine;

verus! {

/// What standard-alphabet base64 decoding yields on a character sequence:
/// the decoded bytes, or nothing where the input is not valid base64.
pub uninterp spec fn base64_decoded(s: Seq<char>) -> Option<Seq<u8>>;

/// What UTF-8 decoding yields on a byte sequence: the decoded characters,
/// or nothing where the bytes are not valid UTF-8.
pub uninterp spec fn utf8_decoded(bytes: Seq<u8>) -> Option<Seq<char>>;

/// Relies on base64's `Engine::decode` with the `STANDARD` engine: it
/// decodes the input characters alone, returning `Err` exactly on input
/// that is not valid padded standard-alphabet base64.
#[verifier::external_body]
fn base64_decode(s: &str) -> (r: Option<Vec<u8>>)
    ensures
        r is Some <==> base64_decoded(s@) is Some,
        r matches Some(bytes) ==> Some(bytes@) == base64_decoded(s@),
{
    base64::engine::general_purpose::STANDARD.decode(s).ok()
}

/// Relies on `String::from_utf8`: it returns the string of the given bytes
/// exactly when they are valid UTF-8, and `Err` otherwise.
#[verifier::external_body]
fn string_from_utf8(bytes: Vec<u8>) -> (r: Option<String>)
    ensures
        r is Some <==> utf8_decoded(bytes@) is Some,
        r matches Some(s) ==> Some(s@) == utf8_decoded(bytes@),
{
    String::from_utf8(bytes).ok()
}

/// What decoding an opaque identifier yields: its base64 bytes read as
/// UTF-8, or nothing where either decoding step fails.
pub open spec fn spec_decoded_id(id: Seq<char>) -> Option<Seq<char>> {
    match base64_decoded(id) {
        Option::None => Option::None,
        Option::Some(bytes) => utf8_decoded(bytes),
    }
}

/// Decodes an opaque user identifier: base64, then UTF-8. Returns nothing
/// where the identifier is not valid base64 or its bytes are not UTF-8.
pub fn decode_user_id(id: &str) -> (r: Option<String>)
    ensures
        r is Some <==> spec_decoded_id(id@) is Some,
        r matches Some(s) ==> Some(s@) == spec_decoded_id(id@),
{
    match base64_decode(id) {
        None => None,
        Some(bytes) => string_from_utf8(bytes),
    }
}

/// Handles an identity response: a response without a user yields an absent
/// result and is no failure; one with a user yields its identifier decoded,
/// or nothing where the identifier does not decode.
pub fn identity_of_response(user_id: Option<String>) -> (r: Option<String>)
    ensures
        user_id is None ==> r is None,
        user_id matches Some(id) ==> {
            &&& r is Some <==> spec_decoded_id(id@) is Some
            &&& (r matches Some(s) ==> Some(s@) == spec_decoded_id(id@))
        },
{
    match user_id {
        None => None,
        Some(id) => decode_user_id(id.as_str()),
    }
}

} // verus!
