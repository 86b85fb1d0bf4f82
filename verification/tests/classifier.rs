use amqp_cli::classify::{classify, has_newline, Outcome};

#[test]
fn accepts_single_line_text() {
    assert_eq!(classify(b"alpha"), Outcome::Accept("alpha".to_string()));
}

#[test]
fn accepts_empty_payload() {
    assert_eq!(classify(b""), Outcome::Accept(String::new()));
}

#[test]
fn accepts_multibyte_text() {
    let text = "gr\u{fc}\u{df}e \u{4e16}\u{754c} \u{1f600}";
    assert_eq!(classify(text.as_bytes()), Outcome::Accept(text.to_string()));
}

#[test]
fn rejects_embedded_newline_with_text() {
    assert_eq!(classify(b"foo\nbar"), Outcome::RejectNewline("foo\nbar".to_string()));
}

#[test]
fn rejects_trailing_newline() {
    assert_eq!(classify(b"foo\n"), Outcome::RejectNewline("foo\n".to_string()));
}

#[test]
fn rejects_lone_newline() {
    assert_eq!(classify(b"\n"), Outcome::RejectNewline("\n".to_string()));
}

#[test]
fn carriage_return_alone_is_no_newline() {
    assert_eq!(classify(b"foo\rbar"), Outcome::Accept("foo\rbar".to_string()));
}

#[test]
fn rejects_invalid_utf8_with_decoder_text() {
    let payload: [u8; 3] = [0x66, 0xff, 0x6f];
    let expected = std::str::from_utf8(&payload).unwrap_err().to_string();
    assert_eq!(classify(&payload), Outcome::RejectParseError(expected));
}

#[test]
fn rejects_truncated_sequence() {
    let payload: [u8; 2] = [0xe4, 0xb8];
    match classify(&payload) {
        Outcome::RejectParseError(reason) => assert!(!reason.is_empty()),
        other => panic!("unexpected outcome {:?}", other),
    }
}

#[test]
fn invalid_utf8_wins_over_newline() {
    let payload: [u8; 3] = [0x0a, 0xc3, 0x28];
    assert!(matches!(classify(&payload), Outcome::RejectParseError(_)));
}

#[test]
fn rejects_surrogate_and_overlong_encodings() {
    assert!(matches!(classify(&[0xed, 0xa0, 0x80]), Outcome::RejectParseError(_)));
    assert!(matches!(classify(&[0xc0, 0x8a]), Outcome::RejectParseError(_)));
}

#[test]
fn classification_is_repeatable() {
    let payloads: Vec<Vec<u8>> = vec![
        b"alpha".to_vec(),
        b"foo\nbar".to_vec(),
        vec![0xff, 0xfe],
        Vec::new(),
    ];
    for payload in payloads {
        assert_eq!(classify(&payload), classify(&payload));
        let copy = payload.clone();
        assert_eq!(classify(&payload), classify(&copy));
    }
}

#[test]
fn has_newline_finds_line_feed_anywhere() {
    assert!(has_newline("\nabc"));
    assert!(has_newline("a\nbc"));
    assert!(has_newline("abc\n"));
    assert!(!has_newline("abc"));
    assert!(!has_newline(""));
    assert!(!has_newline("a\rb\u{2028}c"));
}
