use stellarspend::sanitizer::SharedError;
use stellarspend::transfer::TransferContract;

fn accounts() -> (String, String) {
    (format!("GA{:054}", 1), format!("GA{:054}", 2))
}

#[test]
fn test_clean_description_passes() {
    let (from, to) = accounts();
    let amount = 100;

    // Clean description remains unchanged and execution passes
    let clean_desc = "Payment for dinner.".as_bytes().to_vec();

    let executed = TransferContract::execute_transfer(from.clone(), to.clone(), amount, clean_desc.clone()).unwrap();
    assert_eq!(executed.from, from);
    assert_eq!(executed.to, to);
    assert_eq!(executed.amount, 100);
    assert_eq!(executed.description, clean_desc);
}

#[test]
fn test_invalid_characters_rejected() {
    let (from, to) = accounts();
    let amount = 100;

    // Description containing invalid characters (e.g., emojis or unsupported symbols)
    let invalid_desc = "Payment 🎉".as_bytes().to_vec();

    let result = TransferContract::execute_transfer(from, to, amount, invalid_desc);
    assert_eq!(result.err(), Some(SharedError::InvalidInput));
}

#[test]
fn test_html_tags_rejected() {
    let (from, to) = accounts();
    let amount = 100;

    let html_desc = "<script>alert('xss')</script>".as_bytes().to_vec();
    let result = TransferContract::execute_transfer(from, to, amount, html_desc);
    assert_eq!(result.err(), Some(SharedError::InvalidInput));
}

#[test]
fn test_empty_description_passes() {
    let (from, to) = accounts();
    let amount = 100;

    let empty_desc = Vec::new();

    // Empty strings shouldn't fail
    assert!(TransferContract::execute_transfer(from, to, amount, empty_desc).is_ok());
}

#[test]
fn overlong_description_rejected() {
    let (from, to) = accounts();
    let result = TransferContract::execute_transfer(from, to, 1, vec![b'a'; 257]);
    assert_eq!(result.err(), Some(SharedError::InvalidLength));
}
