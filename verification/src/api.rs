//! The authentication flows: OTP issuance, registration and login, on an
//! explicit context holding the two stores and the signing key.

use vstd::prelude::*;

use crate::errors::AuthError;
use crate::hashing::argon_matches;
use crate::hashing::get_hash;
use crate::hashing::match_hash;
use crate::otp::generate_otp;
use crate::otp::otp_lookup;
use crate::otp::otp_outcome;
use crate::otp::OtpStore;
use crate::otp::OTP_TTL_SECS;
use crate::store::find_user;
use crate::store::UserAccount;
use crate::store::UserStore;
use crate::token::generate_token;
use crate::token::token_of;
use crate::token::Claims;

verus! {

/// Seconds a session token stays valid after issuance.
pub const TOKEN_LIFETIME_SECS: usize = 86400;

/// The view of a token result with the token replaced by its characters.
pub open spec fn token_result_view(r: Result<String, AuthError>) -> Result<Seq<char>, AuthError> {
    match r {
        Ok(t) => Ok(t@),
        Err(e) => Err(e),
    }
}

/// What login returns: `InvalidCredentials` both when no row carries the
/// email and when the password does not match the stored hash — the two are
/// indistinguishable — and otherwise the token for the email, expiring one
/// token lifetime after `now`.
pub open spec fn login_outcome(
    rows: Seq<UserAccount>,
    email: Seq<char>,
    password: Seq<char>,
    now: usize,
    key: Seq<u8>,
) -> Result<Seq<char>, AuthError> {
    match find_user(rows, email) {
        None => Err(AuthError::InvalidCredentials),
        Some(u) => if argon_matches(password, u.password_hash@) {
            Ok(token_of(email, (now + TOKEN_LIFETIME_SECS) as nat, key))
        } else {
            Err(AuthError::InvalidCredentials)
        },
    }
}

/// The authentication context: the credential store, the pending-code store
/// and the process-wide signing key, constructed once at startup and handed
/// to each flow.
pub struct AuthAPI {
    pub users: UserStore,
    pub otps: OtpStore,
    pub jwt_secret_key: [u8; 32],
}

impl AuthAPI {
    /// Both stores are well-formed.
    pub open spec fn wf(&self) -> bool {
        self.users.wf() && self.otps.wf()
    }

    /// The signing key the context was built with.
    pub open spec fn signing_key(&self) -> Seq<u8> {
        self.jwt_secret_key@
    }

    /// A fresh context with empty stores.
    pub fn new(jwt_secret_key: [u8; 32]) -> (r: AuthAPI)
        ensures
            r.wf(),
            r.users@.len() == 0,
            r.otps@.len() == 0,
            r.users.spec_next_id() == 1,
            r.signing_key() == jwt_secret_key@,
    {
        AuthAPI { users: UserStore::new(), otps: OtpStore::new(), jwt_secret_key }
    }

    /// Draws a fresh 4-digit code and stores it for `email` with a full TTL,
    /// overwriting any prior pending code. The code is returned so the
    /// caller can deliver it out of band; no account data changes.
    pub fn send_otp(&mut self, email: String, now: usize) -> (code: u16)
        requires
            old(self).wf(),
            now + OTP_TTL_SECS <= usize::MAX,
        ensures
            final(self).wf(),
            1000 <= code <= 9999,
            otp_lookup(final(self).otps@, email@) matches Some(e) && e.email@ == email@ && e.code
                == code && e.expires_at == now + OTP_TTL_SECS,
            forall|other: Seq<char>|
                other != email@ ==> otp_lookup(final(self).otps@, other) == otp_lookup(
                    old(self).otps@,
                    other,
                ),
            final(self).users == old(self).users,
            final(self).signing_key() == old(self).signing_key(),
    {
        let code = generate_otp();
        self.otps.set_code(email, code, now);
        code
    }

    /// Registration: consumes nothing until everything is checked — the
    /// presented code must match the pending one, the password is hashed,
    /// and only then is the row inserted, with `role_id` fixed to 1 whatever
    /// the caller suggested. Any failure leaves the stores exactly as they
    /// were: no partial user row ever exists.
    pub fn crate_user(
        &mut self,
        name: String,
        email: String,
        role_id: u32,
        password: &str,
        otp: u32,
        now: usize,
    ) -> (r: Result<(), AuthError>)
        requires
            old(self).wf(),
            old(self).users.spec_next_id() < u64::MAX,
        ensures
            final(self).wf(),
            final(self).otps == old(self).otps,
            final(self).signing_key() == old(self).signing_key(),
            r is Err ==> final(self).users == old(self).users,
            otp_outcome(old(self).otps@, email@, otp, now) matches Err(e) ==> r == Err::<
                (),
                AuthError,
            >(e),
            otp_outcome(old(self).otps@, email@, otp, now) is Ok && find_user(
                old(self).users@,
                email@,
            ) is Some ==> r == Err::<(), AuthError>(AuthError::StoreError) || r == Err::<
                (),
                AuthError,
            >(AuthError::InternalError),
            otp_outcome(old(self).otps@, email@, otp, now) is Ok && find_user(
                old(self).users@,
                email@,
            ) is None ==> r is Ok || r == Err::<(), AuthError>(AuthError::InternalError),
            r is Ok ==> otp_outcome(old(self).otps@, email@, otp, now) is Ok && find_user(
                old(self).users@,
                email@,
            ) is None && final(self).users@ == old(self).users@.push(final(self).users@.last())
                && final(self).users@.last().email@ == email@ && final(self).users@.last().name@
                == name@ && final(self).users@.last().role_id == 1
                && final(self).users@.last().id == old(self).users.spec_next_id()
                && argon_matches(password@, final(self).users@.last().password_hash@),
            forall|other: Seq<char>|
                other != email@ ==> find_user(final(self).users@, other) == find_user(
                    old(self).users@,
                    other,
                ),
    {
        match self.otps.verify_otp(email.as_str(), otp, now) {
            Err(e) => {
                return Err(e);
            },
            Ok(_) => {},
        }
        let hash = match get_hash(password) {
            Ok(h) => h,
            Err(e) => {
                return Err(e);
            },
        };
        self.users.insert(name, email, hash, 1)
    }

    /// Login: looks the email up, signs the session token, and hands it out
    /// only if the password matches the stored hash. A missing account and a
    /// wrong password are indistinguishable; the token's embedded expiry is
    /// always `now` plus the token lifetime.
    pub fn login_user(&self, email: &str, password: &str, now: usize) -> (r: Result<
        String,
        AuthError,
    >)
        requires
            self.wf(),
            now + TOKEN_LIFETIME_SECS <= usize::MAX,
        ensures
            token_result_view(r) == login_outcome(
                self.users@,
                email@,
                password@,
                now,
                self.signing_key(),
            ),
    {
        let row = match self.users.lookup(email) {
            None => {
                return Err(AuthError::InvalidCredentials);
            },
            Some(u) => u,
        };
        let claims = Claims { email: email.to_owned(), exp: now + TOKEN_LIFETIME_SECS };
        let token = match generate_token(claims, self.jwt_secret_key) {
            Ok(t) => t,
            Err(e) => {
                return Err(e);
            },
        };
        match match_hash(password, row.password_hash.as_str()) {
            Ok(_) => Ok(token),
            Err(e) => Err(e),
        }
    }
}

/// Law: with correct credentials login yields exactly the token whose
/// embedded expiry is the issue time plus the token lifetime; with a
/// password that does not match, it yields no token.
pub proof fn lemma_login_token_expiry(
    rows: Seq<UserAccount>,
    email: Seq<char>,
    password: Seq<char>,
    now: usize,
    key: Seq<u8>,
)
    requires
        find_user(rows, email) is Some,
        now + TOKEN_LIFETIME_SECS <= usize::MAX,
    ensures
        argon_matches(password, find_user(rows, email)->Some_0.password_hash@)
            ==> login_outcome(rows, email, password, now, key) == Ok::<Seq<char>, AuthError>(
            token_of(email, (now + TOKEN_LIFETIME_SECS) as nat, key),
        ),
        !argon_matches(password, find_user(rows, email)->Some_0.password_hash@)
            ==> login_outcome(rows, email, password, now, key) == Err::<Seq<char>, AuthError>(
            AuthError::InvalidCredentials,
        ),
{
}

} // verus!
