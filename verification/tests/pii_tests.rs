use rust_expect::pii::{contains_pii, redact, redact_asterisks};

#[test]
fn quick_contains() {
    assert!(contains_pii("SSN: 123-45-6789"));
    assert!(contains_pii("Email: test@example.com"));
    assert!(!contains_pii("No PII here"));
}

#[test]
fn quick_redact() {
    let result = redact("Card: 4111-1111-1111-1111");
    assert!(!result.contains("4111"));
    assert_eq!(result, "Card: [CREDIT_CARD]");
}

#[test]
fn redact_module_example() {
    let safe_text = redact("SSN: 123-45-6789, Email: user@example.com");
    assert!(!safe_text.contains("123-45-6789"));
    assert_eq!(safe_text, "SSN: [SSN], Email: [EMAIL]");
}

#[test]
fn redact_with_asterisks_and_boundaries() {
    assert_eq!(redact_asterisks("id 123-45-6789."), "id ***********.");
    assert!(!contains_pii("1123-45-67890"));
    assert!(contains_pii("card 4111111111111111 end"));
    assert!(!contains_pii("name@localhost"));
}
