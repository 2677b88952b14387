//! The identity guard: turns the `Authorization` header of a request into a
//! trusted identity, or rejects the request.
use vstd::prelude::*;
use crate::claims::{claims_text, text_at, ClaimsView};
use crate::decimal::{int_text, push_nat};
use crate::service::AuthError;
use crate::token::{jwt_payload, jwt_signed, verify_token};

verus! {

/// The identity that a request carries once its token is accepted.
#[derive(Debug, Clone, Copy, PartialEq, Eq, Structural)]
pub struct AuthenticatedUser {
    pub id: i32,
}

pub open spec fn bearer_prefix() -> Seq<char> {
    seq!['B', 'e', 'a', 'r', 'e', 'r', ' ']
}

/// The token of a `Bearer <token>` header value; `None` for another scheme or
/// an empty token.
pub open spec fn bearer_token_of(h: Seq<char>) -> Option<Seq<char>> {
    if h.len() > 7 && h.subrange(0, 7) == bearer_prefix() {
        Some(h.subrange(7, h.len() as int))
    } else {
        None
    }
}

/// Claims that make a token good at time `now` under `secret`: signed with it,
/// and not yet expired.
pub open spec fn live_claims_of(token: Seq<char>, secret: Seq<char>, now: u64, c: ClaimsView) -> bool {
    c.wf() && jwt_payload(token, secret) == Some(claims_text(c)) && now < c.exp
}

/// Takes the token out of a `Bearer <token>` header value.
pub fn bearer_token(header: &str) -> (r: Option<&str>)
    ensures
        match bearer_token_of(header@) {
            Some(t) => r matches Some(x) && x@ == t,
            None => r is None,
        },
{
    proof {
        reveal_strlit("Bearer ");
        assert("Bearer "@ =~= bearer_prefix());
    }
    let n = header.unicode_len();
    if n > 7 && text_at(header, 0, "Bearer ") {
        Some(header.substring_char(7, n))
    } else {
        None
    }
}

/// Admits a request whose `Authorization` header holds a bearer token that is
/// signed with `secret` and whose claims are live at `now`; the identity is the
/// subject of those claims. Any other request is rejected, for one reason as for
/// another. No account is looked up.
pub fn authenticate(header: Option<&str>, secret: &str, now: u64) -> (r: Result<
    AuthenticatedUser,
    AuthError,
>)
    ensures
        r matches Err(e) ==> e == AuthError::Unauthenticated,
        r matches Ok(u) ==> exists|t: Seq<char>, c: ClaimsView|
            header is Some && bearer_token_of(header->0@) == Some(t) && #[trigger] live_claims_of(
                t,
                secret@,
                now,
                c,
            ) && c.sub == u.id,
        forall|t: Seq<char>, c: ClaimsView|
            header is Some && bearer_token_of(header->0@) == Some(t) && #[trigger] live_claims_of(
                t,
                secret@,
                now,
                c,
            ) ==> r == Ok::<AuthenticatedUser, AuthError>(AuthenticatedUser { id: c.sub }),
        header is None ==> r is Err,
        header is Some && bearer_token_of(header->0@) is None ==> r is Err,
        forall|c: ClaimsView|
            header is Some && bearer_token_of(header->0@) is Some && c.wf() && jwt_payload(
                bearer_token_of(header->0@)->0,
                secret@,
            ) == Some(#[trigger] claims_text(c)) && c.exp <= now ==> r is Err,
        forall|c: ClaimsView|
            c.wf() && header is Some && bearer_token_of(header->0@) == Some(
                jwt_signed(#[trigger] claims_text(c), secret@),
            ) ==> if now < c.exp {
                r == Ok::<AuthenticatedUser, AuthError>(AuthenticatedUser { id: c.sub })
            } else {
                r is Err
            },
{
    let h = match header {
        Some(h) => h,
        None => return Err(AuthError::Unauthenticated),
    };
    let t = match bearer_token(h) {
        Some(t) => t,
        None => return Err(AuthError::Unauthenticated),
    };
    match verify_token(t, secret, now) {
        Ok(c) => {
            proof {
                assert(live_claims_of(t@, secret@, now, c@));
            }
            Ok(AuthenticatedUser { id: c.sub })
        },
        Err(_) => Err(AuthError::Unauthenticated),
    }
}

/// The text that confirms an identity to its holder.
pub fn me(user: &AuthenticatedUser) -> (r: String)
    ensures
        r@ == "My user ID is: "@ + int_text(user.id as int),
{
    let mut s = String::from_str("My user ID is: ");
    if user.id < 0 {
        proof {
            reveal_strlit("-");
        }
        s.append("-");
        let m: i64 = -(user.id as i64);
        push_nat(&mut s, m as u64);
    } else {
        push_nat(&mut s, user.id as u64);
    }
    assert(s@ =~= "My user ID is: "@ + int_text(user.id as int));
    s
}

} // verus!
