//! The two operations of the tool. Encoding masks the UTF-8 bytes of the
//! input and base64-encodes the raw masked bytes, with no intermediate text
//! representation, so it is total. Decoding base64-decodes the input, demands
//! that the decoded bytes form UTF-8 text, and undoes the mask on that text's
//! bytes, taking every masked byte as one character; the asymmetry between
//! the two directions is inherited from the legacy format.
use vstd::prelude::*;
use vstd::utf8::encode_utf8;
use vstd::utf8::valid_utf8;
use vstd::utf8::is_ascii_chars;
use vstd::utf8::is_ascii_chars_encode_utf8;
use vstd::utf8::is_leading_byte_width_1;
use vstd::utf8::partial_valid_utf8;
use vstd::utf8::partial_valid_utf8_extend_ascii_block;
use vstd::utf8::char_u32_cast;

use crate::codec::b64_encoding_of;
use crate::codec::b64_decoding_of;
use crate::codec::b64_encode;
use crate::codec::b64_decode;
use crate::transform::mask_seq;
use crate::transform::xor;
use crate::transform::lemma_mask_self_inverse;
use crate::transform::lemma_mask_preserves_ascii;

verus! {

/// The failure classes of the decode operation, kept distinguishable: the
/// input was not base64, or the decoded bytes were not text.
#[derive(Clone, Copy, Debug, PartialEq, Eq, Structural)]
pub enum CodecError {
    /// The input is not well-formed base64.
    DecodeError,
    /// The base64-decoded bytes are not valid UTF-8 text.
    EncodingError,
}

/// The characters a byte sequence yields when every byte is taken as one
/// character, as the legacy decoder forms its output.
pub open spec fn chars_of_bytes(bytes: Seq<u8>) -> Seq<char> {
    Seq::new(bytes.len(), |i: int| bytes[i] as char)
}

/// True when every character of the text is printable ASCII.
pub open spec fn is_printable_ascii(s: Seq<char>) -> bool {
    forall|i: int| 0 <= i < s.len() ==> ' ' <= #[trigger] s[i] <= '~'
}

/// What the encode operation returns: the input's UTF-8 bytes masked and
/// base64-encoded.
pub open spec fn encode_spec(s: Seq<char>) -> Seq<char> {
    b64_encoding_of(mask_seq(encode_utf8(s)))
}

/// What the decode operation returns: base64-decode, demand UTF-8 text, mask
/// that text's bytes, and take every masked byte as one character.
pub open spec fn decode_spec(text: Seq<char>) -> Result<Seq<char>, CodecError> {
    match b64_decoding_of(text) {
        Some(bytes) => if valid_utf8(bytes) {
            Ok(chars_of_bytes(mask_seq(bytes)))
        } else {
            Err(CodecError::EncodingError)
        },
        None => Err(CodecError::DecodeError),
    }
}

/// Relies on core::str::from_utf8: it succeeds exactly on the byte sequences
/// that are well-formed UTF-8.
#[verifier::external_body]
fn utf8_check(bytes: &[u8]) -> (r: bool)
    ensures
        r == valid_utf8(bytes@),
{
    core::str::from_utf8(bytes).is_ok()
}

/// Relies on String::push: it appends the one character to the string.
#[verifier::external_body]
fn push_char(s: &mut String, c: char)
    ensures
        final(s)@ == old(s)@.push(c),
{
    s.push(c);
}

/// Builds the string whose characters are the input bytes, one character per
/// byte.
fn string_of_bytes(bytes: &[u8]) -> (r: String)
    ensures
        r@ == chars_of_bytes(bytes@),
{
    let mut out = String::new();
    let mut i: usize = 0;
    while i < bytes.len()
        invariant
            i <= bytes@.len(),
            out@.len() == i,
            forall|j: int| 0 <= j < i ==> out@[j] == (bytes@[j] as char),
        decreases bytes@.len() - i,
    {
        push_char(&mut out, bytes[i] as char);
        i = i + 1;
    }
    proof {
        assert(out@ =~= chars_of_bytes(bytes@));
    }
    out
}

/// Bytes that all lie below 0x80 form a valid UTF-8 encoding.
proof fn lemma_ascii_bytes_valid_utf8(bytes: Seq<u8>)
    requires
        forall|i: int| 0 <= i < bytes.len() ==> bytes[i] < 0x80,
    ensures
        valid_utf8(bytes),
{
    assert(bytes.subrange(0, 0) =~= Seq::<u8>::empty());
    assert(valid_utf8(bytes.subrange(0, 0)));
    assert(partial_valid_utf8(bytes, 0));
    assert forall|i: int| 0 <= i < bytes.len() implies #[trigger] is_leading_byte_width_1(
        bytes[i],
    ) by {
        assert(bytes[i] < 0x80);
    }
    partial_valid_utf8_extend_ascii_block(bytes, 0, bytes.len() as int);
    assert(bytes.subrange(0, bytes.len() as int) =~= bytes);
}

/// The heart of the round trip: for printable ASCII text the masked UTF-8
/// bytes are themselves ASCII, hence valid UTF-8, and masking them again
/// recovers the text character for character.
proof fn lemma_printable_round_trip(s: Seq<char>)
    requires
        is_printable_ascii(s),
    ensures
        valid_utf8(mask_seq(encode_utf8(s))),
        chars_of_bytes(mask_seq(mask_seq(encode_utf8(s)))) == s,
{
    assert(is_ascii_chars(s)) by {
        assert forall|i: int| 0 <= i < s.len() implies '\0' <= #[trigger] s[i] <= '\u{7f}' by {
            assert(' ' <= s[i] <= '~');
        }
    }
    is_ascii_chars_encode_utf8(s);
    let bs = encode_utf8(s);
    let masked = mask_seq(bs);
    assert forall|i: int| 0 <= i < masked.len() implies masked[i] < 0x80 by {
        assert(bs[i] == s[i] as u8);
        assert(s[i] as u32 <= 0x7e);
        assert(bs[i] < 0x80);
        lemma_mask_preserves_ascii(bs[i]);
    }
    lemma_ascii_bytes_valid_utf8(masked);
    lemma_mask_self_inverse(bs);
    assert(chars_of_bytes(mask_seq(masked)) =~= s) by {
        assert forall|i: int| 0 <= i < s.len() implies chars_of_bytes(bs)[i] == s[i] by {
            assert(bs[i] == s[i] as u8);
            char_u32_cast(s[i], s[i] as u32);
            assert((bs[i] as char) == ((s[i] as u8) as char));
        }
    }
}

/// Encodes a string for the legacy scheme: the exclusive-or transform runs
/// over the string's UTF-8 bytes and the raw masked bytes are base64-encoded.
/// Every input string encodes; the empty string encodes to the empty string;
/// and for printable ASCII input the decode operation recovers the input
/// exactly (the round trip).
pub fn str_encode(s: &String) -> (r: String)
    ensures
        r@ == encode_spec(s@),
        b64_decoding_of(r@) == Some(mask_seq(encode_utf8(s@))),
        s@.len() == 0 ==> r@.len() == 0,
        is_printable_ascii(s@) ==> decode_spec(r@) == Ok::<Seq<char>, CodecError>(s@),
{
    let bytes: &[u8] = s.as_str().as_bytes();
    let masked = xor(bytes);
    let r = b64_encode(masked.as_slice());
    proof {
        if s@.len() == 0 {
            assert(encode_utf8(s@) =~= Seq::<u8>::empty());
            assert(mask_seq(encode_utf8(s@)) =~= Seq::<u8>::empty());
        }
        if is_printable_ascii(s@) {
            lemma_printable_round_trip(s@);
        }
    }
    r
}

/// Recovers the plaintext from a legacy-encoded string. Returns
/// [`CodecError::DecodeError`] exactly when the input is not well-formed
/// base64 and [`CodecError::EncodingError`] exactly when the decoded bytes
/// are not valid UTF-8 text; otherwise the masked text. The outcome is a
/// function of the input text alone, so repeated calls on one input agree,
/// in particular on the error class.
pub fn str_decode(text: &String) -> (r: Result<String, CodecError>)
    ensures
        match r {
            Ok(p) => decode_spec(text@) == Ok::<Seq<char>, CodecError>(p@),
            Err(e) => decode_spec(text@) == Err::<Seq<char>, CodecError>(e),
        },
{
    let bytes = match b64_decode(text.as_str()) {
        Ok(v) => v,
        Err(_) => {
            return Err(CodecError::DecodeError);
        },
    };
    if !utf8_check(bytes.as_slice()) {
        return Err(CodecError::EncodingError);
    }
    let masked = xor(bytes.as_slice());
    Ok(string_of_bytes(masked.as_slice()))
}

} // verus!
