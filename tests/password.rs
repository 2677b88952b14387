use bookstore_auth::password::{hash_password, password_matches};

#[test]
fn hash_then_verify_accepts_same_password() {
    let h = hash_password("pw1").unwrap();
    assert!(password_matches("pw1", &h));
    assert_ne!(h, "pw1");
    assert!(h.starts_with("$2b$12$"));
    assert_eq!(h.len(), 60);
}

#[test]
fn verify_rejects_other_password() {
    let h = hash_password("pw1").unwrap();
    assert!(!password_matches("pw2", &h));
    assert!(!password_matches("", &h));
}

#[test]
fn salts_differ_between_hashes() {
    let a = hash_password("same").unwrap();
    let b = hash_password("same").unwrap();
    assert_ne!(a, b);
    assert!(password_matches("same", &a));
    assert!(password_matches("same", &b));
}

#[test]
fn malformed_hash_matches_nothing() {
    assert!(!password_matches("pw1", "not-a-hash"));
    assert!(!password_matches("pw1", ""));
    assert!(!password_matches("pw1", "pw1"));
}
