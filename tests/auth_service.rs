use bookstore_auth::api::{ReqSignIn, ReqSignUp};
use bookstore_auth::guard::{authenticate, me};
use bookstore_auth::password::password_matches;
use bookstore_auth::service::{
    prepare_sign_up, sign_in, sign_in_account, sign_up, AccountStore, AuthError, TOKEN_LIFETIME_SECS,
};
use bookstore_auth::token::verify_token;

const SECRET: &str = "scenario-secret";
const NOW: u64 = 1_750_000_000;

fn up(email: &str, password: &str, first: &str, last: &str) -> ReqSignUp {
    ReqSignUp {
        email: email.to_string(),
        password: password.to_string(),
        firstname: first.to_string(),
        lastname: last.to_string(),
    }
}

fn creds(email: &str, password: &str) -> ReqSignIn {
    ReqSignIn { email: email.to_string(), password: password.to_string() }
}

fn count_email(store: &AccountStore, email: &str) -> usize {
    (0..store.len()).filter(|&i| store.get(i).email == email).count()
}

#[test]
fn sign_up_sign_in_scenario() {
    let mut store = AccountStore::new();
    assert_eq!(sign_up(&mut store, &up("a@x.com", "pw1", "A", "B"), NOW), Ok(()));
    let first_hash = store.get(0).password_hash.clone();
    let second = sign_up(&mut store, &up("a@x.com", "pw2", "C", "D"), NOW);
    assert_eq!(second, Err(AuthError::Conflict));
    assert_eq!(second.unwrap_err().status(), 500);
    assert_eq!(count_email(&store, "a@x.com"), 1);
    assert_eq!(store.get(0).password_hash, first_hash);
    assert_eq!(store.get(0).firstname, "A");

    let res = sign_in(&store, &creds("a@x.com", "pw1"), SECRET, NOW).unwrap();
    let id = store.get(0).id;
    let claims = verify_token(&res.token, SECRET, NOW).unwrap();
    assert_eq!(claims.sub, id);
    assert_eq!(claims.role, "user");
    assert_eq!(claims.exp, NOW + 4 * 60 * 60);

    let wrong = sign_in(&store, &creds("a@x.com", "wrong"), SECRET, NOW);
    let err = wrong.err().unwrap();
    assert_eq!(err.status(), 401);
    assert_eq!(err.message(), "Invalid credentials");

    let header = format!("Bearer {}", res.token);
    let user = authenticate(Some(&header), SECRET, NOW + 1).unwrap();
    assert_eq!(user.id, id);
    assert_eq!(me(&user), format!("My user ID is: {}", id));
    assert_eq!(authenticate(None, SECRET, NOW + 1), Err(AuthError::Unauthenticated));
}

#[test]
fn conflicting_sign_up_stores_nothing() {
    let mut store = AccountStore::new();
    sign_up(&mut store, &up("b@x.com", "pw", "F", "L"), 10).unwrap();
    sign_up(&mut store, &up("c@x.com", "pw", "G", "M"), 11).unwrap();
    assert_eq!(store.len(), 2);
    assert_eq!(sign_up(&mut store, &up("c@x.com", "other", "H", "N"), 12), Err(AuthError::Conflict));
    assert_eq!(store.len(), 2);
    assert_eq!(store.get(1).lastname, "M");
    assert_eq!(store.get(1).created_at, 11);
}

#[test]
fn sign_up_stores_hash_and_profile() {
    let mut store = AccountStore::new();
    sign_up(&mut store, &up("d@x.com", "secret pw", "Dee", "Ex"), 77).unwrap();
    let a = store.get(0);
    assert_eq!(a.id, 1);
    assert_eq!(a.email, "d@x.com");
    assert_ne!(a.password_hash, "secret pw");
    assert!(password_matches("secret pw", &a.password_hash));
    assert_eq!(a.firstname, "Dee");
    assert_eq!(a.lastname, "Ex");
    assert_eq!(a.created_at, 77);
    assert_eq!(a.updated_at, 77);
    assert!(store.find_by_email("d@x.com").is_some());
    assert!(store.find_by_email("D@x.com").is_none());
}

#[test]
fn ids_follow_creation_order() {
    let mut store = AccountStore::new();
    for (i, e) in ["p@x.com", "q@x.com", "r@x.com"].iter().enumerate() {
        sign_up(&mut store, &up(e, "pw", "F", "L"), 0).unwrap();
        assert_eq!(store.get(i).id, i as i32 + 1);
    }
    assert_eq!(store.find_by_email("q@x.com").unwrap().id, 2);
}

#[test]
fn unknown_email_and_wrong_password_fail_alike() {
    let mut store = AccountStore::new();
    sign_up(&mut store, &up("e@x.com", "right", "F", "L"), 0).unwrap();
    let unknown = sign_in(&store, &creds("nobody@x.com", "right"), SECRET, NOW).err().unwrap();
    let wrong = sign_in(&store, &creds("e@x.com", "wrong"), SECRET, NOW).err().unwrap();
    assert_eq!(unknown, AuthError::InvalidCredentials);
    assert_eq!(unknown, wrong);
    assert_eq!(unknown.message(), wrong.message());
    assert_eq!(unknown.status(), wrong.status());
}

#[test]
fn session_token_lasts_four_hours() {
    assert_eq!(TOKEN_LIFETIME_SECS, 14400);
    let mut store = AccountStore::new();
    sign_up(&mut store, &up("f@x.com", "pw", "F", "L"), 0).unwrap();
    let res = sign_in(&store, &creds("f@x.com", "pw"), SECRET, 1000).unwrap();
    assert!(verify_token(&res.token, SECRET, 1000 + 14399).is_ok());
    assert!(verify_token(&res.token, SECRET, 1000 + 14400).is_err());
    assert!(verify_token(&res.token, "another", 1000).is_err());
}

#[test]
fn error_messages_and_statuses() {
    assert_eq!(AuthError::Conflict.message(), "An account exists with that email address.");
    assert_eq!(AuthError::Conflict.status(), 500);
    assert_eq!(AuthError::InvalidCredentials.status(), 401);
    assert_eq!(AuthError::Unauthenticated.status(), 401);
    assert_eq!(AuthError::Unauthenticated.message(), "Unauthorized");
    assert_eq!(AuthError::Internal.status(), 500);
    assert_eq!(AuthError::Internal.message(), "Internal server error");
}

#[test]
fn prepare_sign_up_decides_on_taken_email() {
    let req = up("g@x.com", "pw", "G", "H");
    assert!(matches!(prepare_sign_up(true, &req), Err(AuthError::Conflict)));
    let n = prepare_sign_up(false, &req).ok().unwrap();
    assert_eq!(n.email, "g@x.com");
    assert_eq!(n.firstname, "G");
    assert_eq!(n.lastname, "H");
    assert!(password_matches("pw", &n.password_hash));
}

#[test]
fn sign_in_account_decides_on_found_record() {
    let mut store = AccountStore::new();
    sign_up(&mut store, &up("h@x.com", "pw", "F", "L"), 0).unwrap();
    let found = store.find_by_email("h@x.com");
    let ok = sign_in_account(found, &creds("h@x.com", "pw"), SECRET, 5).unwrap();
    assert_eq!(verify_token(&ok.token, SECRET, 5).unwrap().sub, 1);
    let bad = sign_in_account(found, &creds("h@x.com", "nope"), SECRET, 5).err().unwrap();
    assert_eq!(bad, AuthError::InvalidCredentials);
    let none = sign_in_account(None, &creds("h@x.com", "pw"), SECRET, 5).err().unwrap();
    assert_eq!(none, AuthError::InvalidCredentials);
}

#[test]
fn register_stores_the_given_hash() {
    let mut store = AccountStore::new();
    let req = up("k@x.com", "pw", "K", "L");
    assert_eq!(store.register(&req, "$2b$12$stored".to_string(), 9), Ok(()));
    assert_eq!(store.len(), 1);
    assert_eq!(store.get(0).id, 1);
    assert_eq!(store.get(0).password_hash, "$2b$12$stored");
    assert_eq!(store.get(0).email, "k@x.com");
    assert_eq!(store.register(&req, "other".to_string(), 10), Err(AuthError::Conflict));
    assert_eq!(store.len(), 1);
    assert_eq!(store.get(0).password_hash, "$2b$12$stored");
}

#[test]
fn stored_hash_has_bcrypt_shape() {
    let mut store = AccountStore::new();
    sign_up(&mut store, &up("m@x.com", "pw1", "A", "B"), 0).unwrap();
    let h = &store.get(0).password_hash;
    assert_eq!(h.len(), 60);
    assert!(h.starts_with("$2b$12$"));
    assert_ne!(h, "pw1");
}
