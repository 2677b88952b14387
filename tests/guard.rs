use bookstore_auth::claims::Claims;
use bookstore_auth::guard::{authenticate, bearer_token, me, AuthenticatedUser};
use bookstore_auth::service::AuthError;
use bookstore_auth::token::issue_token;

const SECRET: &str = "server-secret";
const UNSIGNED: &str = "eyJhbGciOiJub25lIiwidHlwIjoiSldUIn0.eyJzdWIiOjEsInJvbGUiOiJ1c2VyIiwiZXhwIjo5OTk5OTk5OTk5fQ.";
const EMPTY_SIGNATURE: &str = "eyJ0eXAiOiJKV1QiLCJhbGciOiJIUzI1NiJ9.eyJzdWIiOjEsInJvbGUiOiJ1c2VyIiwiZXhwIjo5OTk5OTk5OTk5fQ.";

fn token_for(sub: i32, exp: u64, secret: &str) -> String {
    issue_token(&Claims { sub, role: "user".to_string(), exp }, secret).unwrap()
}

#[test]
fn bearer_header_parsing() {
    assert_eq!(bearer_token("Bearer abc"), Some("abc"));
    assert_eq!(bearer_token("Bearer "), None);
    assert_eq!(bearer_token("bearer abc"), None);
    assert_eq!(bearer_token("Basic abc"), None);
    assert_eq!(bearer_token("Bearerabc"), None);
    assert_eq!(bearer_token(""), None);
}

#[test]
fn guard_admits_live_signed_token() {
    let header = format!("Bearer {}", token_for(5, 1000, SECRET));
    assert_eq!(authenticate(Some(&header), SECRET, 999), Ok(AuthenticatedUser { id: 5 }));
}

#[test]
fn guard_rejects_missing_header() {
    assert_eq!(authenticate(None, SECRET, 0), Err(AuthError::Unauthenticated));
}

#[test]
fn guard_rejects_wrong_scheme() {
    let header = format!("Basic {}", token_for(5, 1000, SECRET));
    assert_eq!(authenticate(Some(&header), SECRET, 0), Err(AuthError::Unauthenticated));
    assert_eq!(authenticate(Some("Bearer "), SECRET, 0), Err(AuthError::Unauthenticated));
}

#[test]
fn guard_rejects_unsigned_token() {
    assert_eq!(authenticate(Some(&format!("Bearer {}", UNSIGNED)), SECRET, 0), Err(AuthError::Unauthenticated));
    assert_eq!(authenticate(Some(&format!("Bearer {}", EMPTY_SIGNATURE)), SECRET, 0), Err(AuthError::Unauthenticated));
}

#[test]
fn guard_rejects_expired_token() {
    let header = format!("Bearer {}", token_for(5, 1000, SECRET));
    assert_eq!(authenticate(Some(&header), SECRET, 1000), Err(AuthError::Unauthenticated));
}

#[test]
fn guard_rejects_rotated_secret() {
    let header = format!("Bearer {}", token_for(5, 1000, "previous-secret"));
    assert_eq!(authenticate(Some(&header), SECRET, 0), Err(AuthError::Unauthenticated));
}

#[test]
fn me_echoes_the_identity() {
    assert_eq!(me(&AuthenticatedUser { id: 17 }), "My user ID is: 17");
    assert_eq!(me(&AuthenticatedUser { id: -3 }), "My user ID is: -3");
    assert_eq!(me(&AuthenticatedUser { id: 0 }), "My user ID is: 0");
}
