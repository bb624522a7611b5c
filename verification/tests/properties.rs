use wsxor::str_decode;
use wsxor::str_encode;
use wsxor::xor;
use wsxor::CodecError;
use wsxor::MAGIC;

#[test]
fn mask_value_is_fixed() {
    assert_eq!(MAGIC, 0x5f);
}

#[test]
fn round_trip_printable_ascii() {
    let samples = [
        "hello world",
        "a",
        " ",
        "~",
        "The quick brown fox jumps over the lazy dog, 0123456789!?",
        "{[(<#$%^&*>)]}",
    ];
    for s in samples {
        let s = s.to_string();
        let encoded = str_encode(&s);
        let decoded = str_decode(&encoded).unwrap();
        assert_eq!(decoded, s);
    }
}

#[test]
fn empty_string_encodes_to_empty() {
    assert_eq!(str_encode(&String::new()), "");
}

#[test]
fn empty_string_decodes_to_empty() {
    assert_eq!(str_decode(&String::new()).unwrap(), "");
}

#[test]
fn non_base64_input_gives_decode_error() {
    let r = str_decode(&"improper base64 string here".to_string());
    assert_eq!(r, Err(CodecError::DecodeError));
}

#[test]
fn bad_length_input_gives_decode_error() {
    let r = str_decode(&"A".to_string());
    assert_eq!(r, Err(CodecError::DecodeError));
}

#[test]
fn non_utf8_payload_gives_encoding_error() {
    // "/w==" is valid base64 and decodes to the single byte 0xff, which is
    // not valid UTF-8.
    let r = str_decode(&"/w==".to_string());
    assert_eq!(r, Err(CodecError::EncodingError));
}

#[test]
fn decode_failure_is_idempotent() {
    let input = "improper base64 string here".to_string();
    let first = str_decode(&input);
    let second = str_decode(&input);
    assert!(first.is_err());
    assert_eq!(first, second);

    let payload = "/w==".to_string();
    let first = str_decode(&payload);
    let second = str_decode(&payload);
    assert!(first.is_err());
    assert_eq!(first, second);
}

#[test]
fn decode_success_is_repeatable() {
    let input = "NzozMzB/KDAtMzs=".to_string();
    assert_eq!(str_decode(&input).unwrap(), str_decode(&input).unwrap());
}

#[test]
fn encode_works_on_raw_bytes_of_non_ascii_input() {
    // "é" is [0xc3, 0xa9] in UTF-8; masked that is [0x9c, 0xf6], whose
    // base64 encoding is "nPY=". The masked bytes are fed to base64 raw,
    // without being forced back into text first.
    assert_eq!(str_encode(&"é".to_string()), "nPY=");
}

#[test]
fn xor_is_self_inverse_on_bytes() {
    let bytes: Vec<u8> = vec![0x00, 0x5f, 0x68, 0x7f, 0x80, 0xff];
    let twice = xor(xor(bytes.as_slice()).as_slice());
    assert_eq!(twice, bytes);
}

#[test]
fn xor_of_empty_is_empty() {
    assert_eq!(xor(&[]), Vec::<u8>::new());
}
