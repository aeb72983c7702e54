use kman::token::is_valid_token;

#[test]
fn accepts_well_formed_token() {
    // `sha256~` followed by exactly 43 URL-safe base64 characters.
    assert!(is_valid_token("sha256~AAAAAAAAAAAAAAAAAAAAAAAAAAAAAAAAAAAAAAAAAAA"));
    assert!(is_valid_token("sha256~abcDEF0123456789_-abcDEF0123456789_-abcDEF0"));
    assert!(is_valid_token("sha256~zzzzzzzzzzzzzzzzzzzzzzzzzzzzzzzzzzzzzzzzzz9"));
}

#[test]
fn rejects_wrong_prefix() {
    assert!(!is_valid_token("sha512~AAAAAAAAAAAAAAAAAAAAAAAAAAAAAAAAAAAAAAAAAAA"));
    assert!(!is_valid_token("Sha256~AAAAAAAAAAAAAAAAAAAAAAAAAAAAAAAAAAAAAAAAAAA"));
}

#[test]
fn rejects_wrong_length() {
    // 42 body characters.
    assert!(!is_valid_token("sha256~AAAAAAAAAAAAAAAAAAAAAAAAAAAAAAAAAAAAAAAAAA"));
    // 44 body characters.
    assert!(!is_valid_token("sha256~AAAAAAAAAAAAAAAAAAAAAAAAAAAAAAAAAAAAAAAAAAAA"));
}

#[test]
fn rejects_disallowed_characters() {
    assert!(!is_valid_token("sha256~AAAAAAAAAAAAAAAAAAAAAAAAAAAAAAAAAAAAAAAAAA+"));
    assert!(!is_valid_token("sha256~AAAAAAAAAAAAAAAAAAAAAAAAAAAAAAAAAAAAAAAAAA/"));
    assert!(!is_valid_token("sha256~AAAAAAAAAAAAAAAAAAAAAAAAAAAAAAAAAAAAAAAAAA="));
    assert!(!is_valid_token("sha256~AAAAAAAAAAAAAAAAAAAAAAAAAAAAAAAAAAAAAAAAAA\u{e9}"));
}

#[test]
fn rejects_missing_separator() {
    // 50 characters but no `~` after the prefix.
    assert!(!is_valid_token("sha256AAAAAAAAAAAAAAAAAAAAAAAAAAAAAAAAAAAAAAAAAAAA"));
}

#[test]
fn rejects_empty_and_prefix_only() {
    assert!(!is_valid_token(""));
    assert!(!is_valid_token("sha256~"));
    assert!(!is_valid_token("not-a-token"));
}
