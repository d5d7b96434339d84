use local_remote_share::password::{hash_password, verify_password};

#[test]
fn correct_password_verifies() {
    let hash = hash_password("hunter2");
    assert!(verify_password("hunter2", &hash));
}

#[test]
fn wrong_password_fails() {
    let hash = hash_password("hunter2");
    assert!(!verify_password("nope", &hash));
}

#[test]
fn hash_is_not_plaintext() {
    let hash = hash_password("hunter2");
    assert!(!hash.contains("hunter2"));
}

#[test]
fn malformed_hash_accepts_nothing() {
    assert!(!verify_password("hunter2", "not a phc string"));
    assert!(!verify_password("", ""));
}

#[test]
fn non_phc_strings_accept_nothing() {
    assert!(!verify_password("hunter2", "x"));
    assert!(!verify_password("x", "x$argon2id$"));
}
