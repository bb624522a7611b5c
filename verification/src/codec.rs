//! The base64 codec adapter. The codec itself is an outside collaborator: any
//! conformant implementation of standard base64 with `=` padding satisfies
//! the scheme, so the two calls are taken on trust with named results, and
//! everything built on top of them is verified against those names.
use vstd::prelude::*;

verus! {

/// The base64 text that standard padded base64 assigns to a byte sequence.
pub uninterp spec fn b64_encoding_of(bytes: Seq<u8>) -> Seq<char>;

/// The bytes that standard base64 decoding recovers from a text, or `None`
/// where the text is not well-formed base64.
pub uninterp spec fn b64_decoding_of(text: Seq<char>) -> Option<Seq<u8>>;

#[verifier::external_type_specification]
#[verifier::external_body]
pub struct ExDecodeError(base64::DecodeError);

/// Relies on base64::encode: it encodes the bytes with the standard alphabet
/// and `=` padding, the output is a function of the input bytes alone, empty
/// input gives empty output, and base64::decode recovers the input from it.
#[verifier::external_body]
pub(crate) fn b64_encode(bytes: &[u8]) -> (r: String)
    ensures
        r@ == b64_encoding_of(bytes@),
        b64_decoding_of(r@) == Some(bytes@),
        bytes@.len() == 0 ==> r@.len() == 0,
{
    base64::encode(bytes)
}

/// Relies on base64::decode: it accepts exactly the well-formed base64 texts,
/// its outcome is a function of the input text alone, and it returns the
/// bytes the text encodes.
#[verifier::external_body]
pub(crate) fn b64_decode(text: &str) -> (r: Result<Vec<u8>, base64::DecodeError>)
    ensures
        match r {
            Ok(v) => b64_decoding_of(text@) == Some(v@),
            Err(_) => b64_decoding_of(text@) is None,
        },
{
    base64::decode(text)
}

} // verus!
