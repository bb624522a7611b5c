use wsxor::str_decode;
use wsxor::str_encode;
use wsxor::xor;

#[test]
fn xor_bytes_properly() {
    let xored = xor("hello".as_bytes());
    let b = xored.as_slice();

    assert_eq!(b.len(), 5);
    assert_eq!(b[0], 55);
    assert_eq!(b[1], 58);
    assert_eq!(b[2], 51);
    assert_eq!(b[3], 51);
    assert_eq!(b[4], 48);
}

#[test]
fn encoding_string() {
    let encoded = str_encode(&"hello world".to_string());
    assert_eq!(encoded, "NzozMzB/KDAtMzs=");
}

#[test]
fn decoding_string() {
    let decoded = str_decode(&"NzozMzB/KDAtMzs=".to_string()).unwrap();
    assert_eq!(decoded, "hello world");
}

#[test]
fn decode_failure_results_in_error() {
    let decoded = str_decode(&"improper base64 string here".to_string());
    assert!(decoded.is_err());
}
