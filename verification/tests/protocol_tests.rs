use yabaictl::protocol::{
    classify_reply, encode_message, query_tokens, reply_error_bytes, QueryDomain, ReplyClass,
};

#[test]
fn message_framing_exact_bytes() {
    let tokens = vec![String::from("query"), String::from("--spaces")];
    let frame = encode_message(&tokens).unwrap();
    // payload: "query\0--spaces\0" plus the end-of-message NUL = 16 bytes,
    // prefixed with the 32-bit little-endian length.
    let mut expected = vec![16u8, 0, 0, 0];
    expected.extend_from_slice(b"query\0--spaces\0\0");
    assert_eq!(frame, expected);
}

#[test]
fn message_framing_empty_token_list() {
    let tokens: Vec<String> = Vec::new();
    let frame = encode_message(&tokens).unwrap();
    assert_eq!(frame, vec![1u8, 0, 0, 0, 0]);
}

#[test]
fn message_framing_length_prefix_is_little_endian() {
    // a single token of 300 bytes: payload is 302 bytes = 0x12E,
    // so the prefix must be 2E 01 00 00 and not 00 00 01 2E.
    let tokens = vec!["x".repeat(300)];
    let frame = encode_message(&tokens).unwrap();
    assert_eq!(&frame[0..4], &[0x2E, 0x01, 0x00, 0x00]);
    assert_eq!(frame.len(), 4 + 302);
}

#[test]
fn reply_classification() {
    assert_eq!(classify_reply(&vec![]), ReplyClass::Empty);
    assert_eq!(classify_reply(&vec![0x07, b'o', b'h']), ReplyClass::Failure);
    assert_eq!(classify_reply(&vec![b'[', b']']), ReplyClass::Payload);
}

#[test]
fn failure_reply_error_text() {
    let reply = vec![0x07, b'b', b'a', b'd'];
    assert_eq!(reply_error_bytes(&reply), b"bad".to_vec());
}

#[test]
fn query_token_vectors() {
    let t = query_tokens(&QueryDomain::Spaces);
    assert_eq!(t, vec![String::from("query"), String::from("--spaces")]);
    assert_eq!(QueryDomain::Windows.as_str(), "--windows");
    assert_eq!(QueryDomain::Displays.as_str(), "--displays");
}
