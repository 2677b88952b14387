//! Signed session tokens: issuing them, and reading back the claims of one
//! that is signed with the server's secret and not yet expired.
use vstd::prelude::*;
use crate::claims::{claims_from_text, claims_text, claims_to_text, plain_run_end, Claims, ClaimsView};

verus! {

/// Why a token is not honoured, or could not be made.
#[derive(Debug, Clone, Copy, PartialEq, Eq, Structural)]
pub enum TokenError {
    /// Bad signature, or a payload that is not the text of any claims.
    Invalid,
    /// Signed and well formed, but its expiry is not in the future.
    Expired,
    /// The claims could not be encoded and signed.
    Encoding,
}

/// The compact HS256 token that signs the payload text with the secret.
pub uninterp spec fn jwt_signed(payload: Seq<char>, secret: Seq<char>) -> Seq<char>;

/// The payload text of a token whose HS256 signature matches the secret and
/// whose payload is a JSON object; `None` for any other token.
pub uninterp spec fn jwt_payload(token: Seq<char>, secret: Seq<char>) -> Option<Seq<char>>;

/// Relies on jsonwebtoken::encode, with the default header (HS256) and an HMAC
/// key made from the secret's bytes, the payload handed over as raw JSON text:
/// the token is a function of the payload and the secret.
#[verifier::external_body]
fn jwt_encode(payload: String, secret: &str) -> (r: Option<String>)
    ensures
        r matches Some(tok) ==> tok@ == jwt_signed(payload@, secret@),
        (exists|c: ClaimsView| c.wf() && #[trigger] claims_text(c) == payload@) ==> r is Some,
{
    let raw = serde_json::value::RawValue::from_string(payload).ok()?;
    let key = jsonwebtoken::EncodingKey::from_secret(secret.as_bytes());
    jsonwebtoken::encode(&jsonwebtoken::Header::default(), &raw, &key).ok()
}

/// Relies on jsonwebtoken::decode with HS256 only, an HMAC key made from the
/// secret's bytes, and no claim checks (no expiry, audience or required claim):
/// the raw JSON text of the payload where the signature matches. A token that
/// jsonwebtoken::encode signed over the text of claims with the same secret is
/// re-signed alike and gives that text back unchanged.
#[verifier::external_body]
fn jwt_decode(token: &str, secret: &str) -> (r: Option<String>)
    ensures
        match r {
            Some(p) => jwt_payload(token@, secret@) == Some(p@),
            None => jwt_payload(token@, secret@) is None,
        },
        forall|c: ClaimsView|
            c.wf() && token@ == jwt_signed(#[trigger] claims_text(c), secret@)
                ==> r is Some && r->0@ == claims_text(c),
{
    let mut validation = jsonwebtoken::Validation::new(jsonwebtoken::Algorithm::HS256);
    validation.validate_exp = false;
    validation.validate_aud = false;
    validation.required_spec_claims.clear();
    let key = jsonwebtoken::DecodingKey::from_secret(secret.as_bytes());
    let data = jsonwebtoken::decode::<Box<serde_json::value::RawValue>>(token, &key, &validation);
    data.ok().map(|d| d.claims.get().to_string())
}

/// What reading the payload text `p` at time `now` must give: the claims it is
/// the text of when they are live, `Expired` when they are not, `Invalid` when it
/// is the text of no claims.
pub open spec fn payload_outcome(p: Seq<char>, now: u64, r: Result<Claims, TokenError>) -> bool {
    &&& (r matches Ok(c) ==> c@.wf() && claims_text(c@) == p && now < c.exp)
    &&& (r matches Err(TokenError::Expired) ==> exists|c: ClaimsView|
        c.wf() && #[trigger] claims_text(c) == p && c.exp <= now)
    &&& !(r matches Err(TokenError::Encoding))
    &&& forall|c: ClaimsView|
        c.wf() && #[trigger] claims_text(c) == p ==> if now < c.exp {
            r matches Ok(x) && x@ == c
        } else {
            r matches Err(TokenError::Expired)
        }
}

/// Whether every character of `s` stands in JSON text unescaped.
pub fn is_plain_text(s: &str) -> (r: bool)
    ensures
        r == (forall|k: int| 0 <= k < s@.len() ==> crate::claims::plain_char(#[trigger] s@[k])),
{
    let n = s.unicode_len();
    plain_run_end(s, 0) == n
}

/// Signs the claims with the secret.
pub fn issue_token(claims: &Claims, secret: &str) -> (r: Result<String, TokenError>)
    ensures
        r matches Ok(tok) ==> claims@.wf() && tok@ == jwt_signed(claims_text(claims@), secret@),
        r matches Err(e) ==> e == TokenError::Encoding,
        !claims@.wf() ==> r is Err,
        claims@.wf() ==> (r matches Ok(tok) && tok@ == jwt_signed(claims_text(claims@), secret@)),
{
    let role = claims.role.as_str();
    if !is_plain_text(role) {
        proof {
            if claims@.wf() {
                assert forall|k: int| 0 <= k < role@.len() implies crate::claims::plain_char(
                    #[trigger] role@[k],
                ) by {
                    assert(claims@.role[k] == role@[k]);
                }
            }
        }
        return Err(TokenError::Encoding);
    }
    let payload = claims_to_text(claims);
    assert(claims@.wf() && claims_text(claims@) == payload@);
    match jwt_encode(payload, secret) {
        Some(tok) => Ok(tok),
        None => Err(TokenError::Encoding),
    }
}

/// Reads the claims of a payload text at time `now`.
pub fn claims_from_payload(p: &str, now: u64) -> (r: Result<Claims, TokenError>)
    ensures
        payload_outcome(p@, now, r),
{
    match claims_from_text(p) {
        Some(c) => {
            if now < c.exp {
                Ok(c)
            } else {
                Err(TokenError::Expired)
            }
        },
        None => Err(TokenError::Invalid),
    }
}

/// Checks the token's signature against the secret, then reads its claims at
/// time `now`.
pub fn verify_token(token: &str, secret: &str, now: u64) -> (r: Result<Claims, TokenError>)
    ensures
        match jwt_payload(token@, secret@) {
            Some(p) => payload_outcome(p, now, r),
            None => r == Err::<Claims, TokenError>(TokenError::Invalid),
        },
        forall|c: ClaimsView|
            c.wf() && token@ == jwt_signed(#[trigger] claims_text(c), secret@) ==> if now < c.exp {
                r matches Ok(x) && x@ == c
            } else {
                r matches Err(TokenError::Expired)
            },
{
    match jwt_decode(token, secret) {
        Some(p) => claims_from_payload(p.as_str(), now),
        None => Err(TokenError::Invalid),
    }
}

/// Claims read back from their own payload text are those claims while they are
/// live, and an expiry rejection from their expiry on.
pub proof fn lemma_payload_round_trip(c: ClaimsView, now: u64, r: Result<Claims, TokenError>)
    requires
        c.wf(),
        payload_outcome(claims_text(c), now, r),
    ensures
        now < c.exp ==> (r matches Ok(x) && x@ == c),
        c.exp <= now ==> r matches Err(TokenError::Expired),
{
}

} // verus!
