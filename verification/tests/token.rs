use local_remote_share::token::generate_token;

#[test]
fn token_is_32_hex_chars() {
    let t = generate_token();
    assert_eq!(t.len(), 32);
    assert!(t.chars().all(|c| c.is_ascii_hexdigit()));
}

#[test]
fn tokens_are_unique() {
    let a = generate_token();
    let b = generate_token();
    assert_ne!(a, b);
}

#[test]
fn token_digits_are_lowercase() {
    let t = generate_token();
    assert!(t.chars().all(|c| c.is_ascii_digit() || ('a'..='f').contains(&c)));
}
