use bookstore_auth::claims::{claims_from_text, claims_to_text, Claims};
use bookstore_auth::token::{claims_from_payload, is_plain_text, issue_token, verify_token, TokenError};

fn claims(sub: i32, role: &str, exp: u64) -> Claims {
    Claims { sub, role: role.to_string(), exp }
}

#[test]
fn claims_text_is_compact_json() {
    let c = claims(42, "user", 1700000000);
    assert_eq!(claims_to_text(&c), "{\"sub\":42,\"role\":\"user\",\"exp\":1700000000}");
    let n = claims(-7, "", 0);
    assert_eq!(claims_to_text(&n), "{\"sub\":-7,\"role\":\"\",\"exp\":0}");
}

#[test]
fn claims_text_reads_back() {
    for c in [claims(1, "user", 14400), claims(i32::MIN, "admin x", u64::MAX), claims(i32::MAX, "", 0)] {
        let text = claims_to_text(&c);
        let back = claims_from_text(&text).expect("round trip");
        assert_eq!(back.sub, c.sub);
        assert_eq!(back.role, c.role);
        assert_eq!(back.exp, c.exp);
    }
}

#[test]
fn claims_text_rejects_other_shapes() {
    assert!(claims_from_text("").is_none());
    assert!(claims_from_text("{\"sub\":01,\"role\":\"user\",\"exp\":5}").is_none());
    assert!(claims_from_text("{\"sub\":-0,\"role\":\"user\",\"exp\":5}").is_none());
    assert!(claims_from_text("{\"sub\": 1,\"role\":\"user\",\"exp\":5}").is_none());
    assert!(claims_from_text("{\"sub\":1,\"role\":\"user\",\"exp\":5} ").is_none());
    assert!(claims_from_text("{\"sub\":2147483648,\"role\":\"user\",\"exp\":5}").is_none());
    assert!(claims_from_text("{\"sub\":1,\"role\":\"user\",\"exp\":18446744073709551616}").is_none());
    assert!(claims_from_text("{\"sub\":1,\"role\":\"us\\\"er\",\"exp\":5}").is_none());
    assert!(claims_from_text("{\"sub\":1,\"role\":\"user\",\"exp\":5}").is_some());
}

#[test]
fn payload_expiry_is_strict() {
    let text = "{\"sub\":3,\"role\":\"user\",\"exp\":100}";
    assert_eq!(claims_from_payload(text, 99).unwrap().sub, 3);
    assert!(matches!(claims_from_payload(text, 100), Err(TokenError::Expired)));
    assert!(matches!(claims_from_payload(text, 101), Err(TokenError::Expired)));
    assert!(matches!(claims_from_payload("{}", 0), Err(TokenError::Invalid)));
}

#[test]
fn plain_text_check() {
    assert!(is_plain_text("user"));
    assert!(is_plain_text(""));
    assert!(!is_plain_text("a\"b"));
    assert!(!is_plain_text("a\\b"));
    assert!(!is_plain_text("a\nb"));
}

#[test]
fn issued_token_verifies_before_expiry() {
    let c = claims(9, "user", 1_000_000);
    let token = issue_token(&c, "s3cret").unwrap();
    assert_eq!(token.split('.').count(), 3);
    let back = verify_token(&token, "s3cret", 999_999).unwrap();
    assert_eq!(back.sub, 9);
    assert_eq!(back.role, "user");
    assert_eq!(back.exp, 1_000_000);
}

#[test]
fn issued_token_is_rejected_after_expiry() {
    let c = claims(9, "user", 1_000_000);
    let token = issue_token(&c, "s3cret").unwrap();
    assert!(matches!(verify_token(&token, "s3cret", 1_000_000), Err(TokenError::Expired)));
    assert!(matches!(verify_token(&token, "s3cret", 2_000_000), Err(TokenError::Expired)));
}

#[test]
fn token_signed_with_other_secret_is_rejected() {
    let c = claims(9, "user", 1_000_000);
    let token = issue_token(&c, "old-secret").unwrap();
    assert!(matches!(verify_token(&token, "new-secret", 0), Err(TokenError::Invalid)));
}

#[test]
fn malformed_tokens_are_rejected() {
    assert!(matches!(verify_token("", "s", 0), Err(TokenError::Invalid)));
    assert!(matches!(verify_token("a.b.c", "s", 0), Err(TokenError::Invalid)));
    let token = issue_token(&claims(1, "user", 50), "s").unwrap();
    let mut tampered = token.clone();
    tampered.push('x');
    assert!(matches!(verify_token(&tampered, "s", 0), Err(TokenError::Invalid)));
}

#[test]
fn role_that_needs_escaping_is_not_issued() {
    let c = claims(1, "a\"b", 10);
    assert!(matches!(issue_token(&c, "s"), Err(TokenError::Encoding)));
}
