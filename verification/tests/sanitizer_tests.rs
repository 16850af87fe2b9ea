use stellarspend::sanitizer::{sanitize_description, SharedError, MAX_DESCRIPTION_LEN};

#[test]
fn accepts_valid_descriptions() {
    let valid_cases = [
        "Valid transfer description",
        "Payment for service!",
        "Invoice_123-A.",
        "Are you sure?",
        "It's a test",
    ];

    for text in valid_cases.iter() {
        assert_eq!(sanitize_description(text.as_bytes()), Ok(()));
    }
}

#[test]
fn rejects_invalid_characters() {
    let invalid_cases = [
        "Invalid\nnewline",
        "Invalid\ttab",
        "HTML <script>alert(1)</script>",
        "Symbols like @ or #",
        "Emoji 🔥",
    ];

    for text in invalid_cases.iter() {
        assert_eq!(sanitize_description(text.as_bytes()), Err(SharedError::InvalidInput));
    }
}

#[test]
fn rejects_too_long() {
    // 257 characters
    let mut long_text = String::new();
    for _ in 0..257 {
        long_text.push('A');
    }
    assert_eq!(sanitize_description(long_text.as_bytes()), Err(SharedError::InvalidLength));
}

#[test]
fn accepts_exactly_the_maximum_length() {
    let text = "a".repeat(MAX_DESCRIPTION_LEN);
    assert_eq!(sanitize_description(text.as_bytes()), Ok(()));
}

#[test]
fn length_is_checked_before_characters() {
    let text = "<".repeat(MAX_DESCRIPTION_LEN + 1);
    assert_eq!(sanitize_description(text.as_bytes()), Err(SharedError::InvalidLength));
}

#[test]
fn accepts_empty_description() {
    assert_eq!(sanitize_description(b""), Ok(()));
}

#[test]
fn rejects_each_excluded_printable_symbol() {
    for b in [b'@', b'#', b'<', b'>', b'"', b';', b'/', b'\\', b'&', b'%'] {
        assert_eq!(sanitize_description(&[b'a', b]), Err(SharedError::InvalidInput));
    }
}
