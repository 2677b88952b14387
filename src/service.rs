//! The credential store and the sign-up / sign-in flows over it.
use vstd::prelude::*;
use crate::api::{ReqSignIn, ReqSignUp, ResSignIn};
use crate::claims::{claims_text, Claims, ClaimsView};
use crate::password::{hash_password, is_stored_hash, password_matches, password_matches_spec};
use crate::token::{issue_token, jwt_signed};

verus! {

/// How long a session token stays good after it is issued, in seconds.
pub const TOKEN_LIFETIME_SECS: u64 = 4 * 60 * 60;

/// Why a sign-up, a sign-in or a guarded request fails.
#[derive(Debug, Clone, Copy, PartialEq, Eq, Structural)]
pub enum AuthError {
    /// Sign-up with an email that an account already has.
    Conflict,
    /// Sign-in with an unknown email or a wrong password, alike.
    InvalidCredentials,
    /// A guarded request without a good token.
    Unauthenticated,
    /// The hasher, the signer or the store could not do its part.
    Internal,
}

impl AuthError {
    /// The HTTP status of the answer.
    pub fn status(&self) -> (r: u16)
        ensures
            r == match *self {
                AuthError::Conflict => 500u16,
                AuthError::InvalidCredentials => 401u16,
                AuthError::Unauthenticated => 401u16,
                AuthError::Internal => 500u16,
            },
    {
        match self {
            AuthError::Conflict => 500,
            AuthError::InvalidCredentials => 401,
            AuthError::Unauthenticated => 401,
            AuthError::Internal => 500,
        }
    }

    /// The message of the answer; it never says which check failed.
    pub fn message(&self) -> (r: String)
        ensures
            r@ == match *self {
                AuthError::Conflict => "An account exists with that email address."@,
                AuthError::InvalidCredentials => "Invalid credentials"@,
                AuthError::Unauthenticated => "Unauthorized"@,
                AuthError::Internal => "Internal server error"@,
            },
    {
        match self {
            AuthError::Conflict => String::from_str("An account exists with that email address."),
            AuthError::InvalidCredentials => String::from_str("Invalid credentials"),
            AuthError::Unauthenticated => String::from_str("Unauthorized"),
            AuthError::Internal => String::from_str("Internal server error"),
        }
    }
}

/// A registered account.
pub struct Account {
    pub id: i32,
    pub email: String,
    pub password_hash: String,
    pub firstname: String,
    pub lastname: String,
    pub created_at: u64,
    pub updated_at: u64,
}

pub ghost struct AccountView {
    pub id: i32,
    pub email: Seq<char>,
    pub password_hash: Seq<char>,
    pub firstname: Seq<char>,
    pub lastname: Seq<char>,
    pub created_at: u64,
    pub updated_at: u64,
}

impl View for Account {
    type V = AccountView;

    open spec fn view(&self) -> AccountView {
        AccountView {
            id: self.id,
            email: self.email@,
            password_hash: self.password_hash@,
            firstname: self.firstname@,
            lastname: self.lastname@,
            created_at: self.created_at,
            updated_at: self.updated_at,
        }
    }
}

/// The accounts, keyed by email: at most one account per email, and account
/// ids 1, 2, 3, ... in order of creation.
pub struct AccountStore {
    accounts: Vec<Account>,
}

impl View for AccountStore {
    type V = Seq<AccountView>;

    closed spec fn view(&self) -> Seq<AccountView> {
        self.accounts@.map_values(|a: Account| a@)
    }
}

/// The role that every session token carries.
pub open spec fn user_role() -> Seq<char> {
    seq!['u', 's', 'e', 'r']
}

/// The claims of a session opened for account `id` at time `now`.
pub open spec fn session_claims(id: i32, now: u64) -> ClaimsView {
    ClaimsView { sub: id, role: user_role(), exp: (now + TOKEN_LIFETIME_SECS) as u64 }
}

impl AccountStore {
    pub open spec fn wf(&self) -> bool {
        &&& self@.len() < i32::MAX
        &&& forall|i: int| 0 <= i < self@.len() ==> (#[trigger] self@[i]).id == i + 1
        &&& forall|i: int, j: int|
            0 <= i < j < self@.len() ==> (#[trigger] self@[i]).email != (#[trigger] self@[j]).email
    }

    pub open spec fn has_email(&self, email: Seq<char>) -> bool {
        exists|i: int| 0 <= i < self@.len() && (#[trigger] self@[i]).email == email
    }

    /// The account with that email, if any.
    pub open spec fn account_for(&self, email: Seq<char>) -> Option<AccountView> {
        if self.has_email(email) {
            Some(self@[choose|i: int| 0 <= i < self@.len() && (#[trigger] self@[i]).email == email])
        } else {
            None
        }
    }

    /// An empty store.
    pub fn new() -> (r: AccountStore)
        ensures
            r.wf(),
            r@.len() == 0,
    {
        let r = AccountStore { accounts: Vec::new() };
        assert(r@ =~= Seq::<AccountView>::empty());
        r
    }

    /// The number of accounts.
    pub fn len(&self) -> (r: usize)
        ensures
            r == self@.len(),
    {
        self.accounts.len()
    }

    /// The account at position `i`, in order of creation.
    pub fn get(&self, i: usize) -> (r: &Account)
        requires
            i < self@.len(),
        ensures
            r@ == self@[i as int],
    {
        &self.accounts[i]
    }

    /// The position of the account with that email.
    fn position_of(&self, email: &str) -> (r: Option<usize>)
        requires
            self.wf(),
        ensures
            match r {
                Some(i) => i < self@.len() && self@[i as int].email == email@,
                None => !self.has_email(email@),
            },
    {
        let target = email.to_owned();
        let mut i: usize = 0;
        while i < self.accounts.len()
            invariant
                i <= self@.len(),
                target@ == email@,
                forall|k: int| 0 <= k < i ==> (#[trigger] self@[k]).email != email@,
            decreases self@.len() - i,
        {
            if self.accounts[i].email == target {
                return Some(i);
            }
            i = i + 1;
        }
        None
    }

    /// The account registered under that email, if any.
    pub fn find_by_email(&self, email: &str) -> (r: Option<&Account>)
        requires
            self.wf(),
        ensures
            match self.account_for(email@) {
                Some(a) => r matches Some(x) && x@ == a,
                None => r is None,
            },
    {
        match self.position_of(email) {
            Some(i) => {
                proof {
                    let j = choose|j: int| 0 <= j < self@.len() && (#[trigger] self@[j]).email == email@;
                    if j < i {
                        assert(self@[j].email != self@[i as int].email);
                    } else if j > i {
                        assert(self@[i as int].email != self@[j].email);
                    }
                }
                Some(&self.accounts[i])
            },
            None => None,
        }
    }
}

/// What sign-up hands to the store to persist: the profile and the password's
/// hash, never the password.
pub struct NewAccount {
    pub email: String,
    pub password_hash: String,
    pub firstname: String,
    pub lastname: String,
}

/// The sign-up decision, given whether the store already has the email: a
/// conflict if it has, else the record to persist.
pub fn prepare_sign_up(email_taken: bool, req: &ReqSignUp) -> (r: Result<NewAccount, AuthError>)
    ensures
        email_taken ==> r matches Err(AuthError::Conflict),
        !email_taken ==> {
            &&& r matches Ok(n) ==> {
                &&& n.email@ == req.email@
                &&& n.firstname@ == req.firstname@
                &&& n.lastname@ == req.lastname@
                &&& password_matches_spec(req.password@, n.password_hash@)
            }
            &&& r matches Err(e) ==> e == AuthError::Internal
        },
{
    if email_taken {
        return Err(AuthError::Conflict);
    }
    let hash = match hash_password(req.password.as_str()) {
        Some(h) => h,
        None => return Err(AuthError::Internal),
    };
    Ok(NewAccount {
        email: req.email.clone(),
        password_hash: hash,
        firstname: req.firstname.clone(),
        lastname: req.lastname.clone(),
    })
}

/// The most accounts the store holds, so that every id fits in an `i32`.
pub const MAX_ACCOUNTS: usize = 2147483646;

/// The store after `req` was registered in it under the next id, with `hash`
/// as the stored password hash and `now` as both timestamps.
pub open spec fn registered(
    before: Seq<AccountView>,
    after: Seq<AccountView>,
    req: &ReqSignUp,
    hash: Seq<char>,
    now: u64,
) -> bool {
    &&& after.len() == before.len() + 1
    &&& after.drop_last() == before
    &&& after.last().id == before.len() + 1
    &&& after.last().email == req.email@
    &&& after.last().password_hash == hash
    &&& after.last().firstname == req.firstname@
    &&& after.last().lastname == req.lastname@
    &&& after.last().created_at == now
    &&& after.last().updated_at == now
}

impl AccountStore {
    /// Stores a new account for `req` with the given password hash: a conflict
    /// where the email is taken, an internal error where the store is full, and
    /// otherwise the account under the next id.
    pub fn register(&mut self, req: &ReqSignUp, password_hash: String, now: u64) -> (r: Result<
        (),
        AuthError,
    >)
        requires
            old(self).wf(),
        ensures
            final(self).wf(),
            old(self).has_email(req.email@) ==> r == Err::<(), AuthError>(AuthError::Conflict),
            !old(self).has_email(req.email@) && old(self)@.len() >= MAX_ACCOUNTS ==> r == Err::<
                (),
                AuthError,
            >(AuthError::Internal),
            !old(self).has_email(req.email@) && old(self)@.len() < MAX_ACCOUNTS ==> r is Ok,
            r is Err ==> final(self)@ == old(self)@,
            r is Ok ==> registered(old(self)@, final(self)@, req, password_hash@, now),
    {
        if self.position_of(req.email.as_str()).is_some() {
            return Err(AuthError::Conflict);
        }
        if self.accounts.len() >= MAX_ACCOUNTS {
            return Err(AuthError::Internal);
        }
        let id: i32 = (self.accounts.len() + 1) as i32;
        let account = Account {
            id,
            email: req.email.clone(),
            password_hash,
            firstname: req.firstname.clone(),
            lastname: req.lastname.clone(),
            created_at: now,
            updated_at: now,
        };
        let ghost before = self@;
        self.accounts.push(account);
        proof {
            assert(self@ =~= before.push(account@));
            assert(self@.drop_last() =~= before);
        }
        Ok(())
    }
}

/// Registers an account. An email that is taken is a conflict, and a full store
/// an internal error: nothing is stored. Otherwise the password is hashed and
/// the hash, never the password, is stored with the profile under the next id;
/// only a failure of the hasher's random source stops that.
pub fn sign_up(store: &mut AccountStore, req: &ReqSignUp, now: u64) -> (r: Result<(), AuthError>)
    requires
        old(store).wf(),
    ensures
        final(store).wf(),
        old(store).has_email(req.email@) ==> r == Err::<(), AuthError>(AuthError::Conflict),
        !old(store).has_email(req.email@) && old(store)@.len() >= MAX_ACCOUNTS ==> r == Err::<
            (),
            AuthError,
        >(AuthError::Internal),
        r is Err ==> final(store)@ == old(store)@,
        !old(store).has_email(req.email@) && r is Err ==> r == Err::<(), AuthError>(
            AuthError::Internal,
        ),
        r is Ok ==> {
            &&& !old(store).has_email(req.email@)
            &&& old(store)@.len() < MAX_ACCOUNTS
            &&& registered(old(store)@, final(store)@, req, final(store)@.last().password_hash, now)
            &&& password_matches_spec(req.password@, final(store)@.last().password_hash)
            &&& is_stored_hash(final(store)@.last().password_hash)
        },
{
    if store.position_of(req.email.as_str()).is_some() {
        return Err(AuthError::Conflict);
    }
    if store.accounts.len() >= MAX_ACCOUNTS {
        return Err(AuthError::Internal);
    }
    let hash = match hash_password(req.password.as_str()) {
        Some(h) => h,
        None => return Err(AuthError::Internal),
    };
    store.register(req, hash, now)
}

/// What sign-in owes for the account `found` under the email, if any: a token
/// for it when the password matches its stored hash, the same invalid
/// credentials error for an unknown email as for a wrong password.
pub open spec fn sign_in_outcome(
    found: Option<AccountView>,
    password: Seq<char>,
    secret: Seq<char>,
    now: u64,
    r: Result<ResSignIn, AuthError>,
) -> bool {
    match found {
        None => r matches Err(AuthError::InvalidCredentials),
        Some(a) => if password_matches_spec(password, a.password_hash) {
            r matches Ok(res) && res.token@ == jwt_signed(
                claims_text(session_claims(a.id, now)),
                secret,
            )
        } else {
            r matches Err(AuthError::InvalidCredentials)
        },
    }
}

/// An unknown email and a wrong password give the same error, and so the same
/// status and message.
pub proof fn lemma_sign_in_failures_alike(
    a: AccountView,
    password: Seq<char>,
    secret: Seq<char>,
    now: u64,
    unknown: Result<ResSignIn, AuthError>,
    wrong: Result<ResSignIn, AuthError>,
)
    requires
        !password_matches_spec(password, a.password_hash),
        sign_in_outcome(None, password, secret, now, unknown),
        sign_in_outcome(Some(a), password, secret, now, wrong),
    ensures
        unknown matches Err(e1) && wrong matches Err(e2) && e1 == e2
            && e1 == AuthError::InvalidCredentials,
{
}

/// The sign-in decision, given the account that the store holds under the
/// email, if any: a token for it when the password matches its stored hash. An
/// unknown email and a wrong password fail alike.
pub fn sign_in_account(found: Option<&Account>, req: &ReqSignIn, secret: &str, now: u64) -> (r:
    Result<ResSignIn, AuthError>)
    requires
        now <= u64::MAX - TOKEN_LIFETIME_SECS,
    ensures
        sign_in_outcome(
            match found {
                Some(a) => Some(a@),
                None => None,
            },
            req.password@,
            secret@,
            now,
            r,
        ),
{
    let account = match found {
        Some(a) => a,
        None => return Err(AuthError::InvalidCredentials),
    };
    if !password_matches(req.password.as_str(), account.password_hash.as_str()) {
        return Err(AuthError::InvalidCredentials);
    }
    proof {
        reveal_strlit("user");
        assert("user"@ =~= user_role());
    }
    let claims = Claims {
        sub: account.id,
        role: String::from_str("user"),
        exp: now + TOKEN_LIFETIME_SECS,
    };
    assert(claims@ == session_claims(account.id, now));
    match issue_token(&claims, secret) {
        Ok(token) => Ok(ResSignIn { token }),
        Err(_) => Err(AuthError::Internal),
    }
}

/// Opens a session: the token for the account with that email when the
/// password matches its stored hash. An unknown email and a wrong password fail
/// alike.
pub fn sign_in(store: &AccountStore, req: &ReqSignIn, secret: &str, now: u64) -> (r: Result<
    ResSignIn,
    AuthError,
>)
    requires
        store.wf(),
        now <= u64::MAX - TOKEN_LIFETIME_SECS,
    ensures
        sign_in_outcome(store.account_for(req.email@), req.password@, secret@, now, r),
{
    sign_in_account(store.find_by_email(req.email.as_str()), req, secret, now)
}

} // verus!
