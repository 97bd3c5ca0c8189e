//! Auth and identity flows: OTP-gated registration, login, and the
//! trusted boundaries to the password hasher and the token issuer.

use vstd::prelude::*;
use argon2::password_hash::{PasswordHasher, PasswordVerifier, SaltString};
use argon2::password_hash::rand_core::OsRng;
use crate::errors::AuthError;
use crate::ids::{lemma_pow16_24, oid_to_hex, Oid};
use crate::model::{Profile, Role, User};
use crate::store::{has_phone, has_username, Store};
use crate::util::string_eq;

verus! {

/// The claims carried by a session token.
#[derive(Clone, Debug)]
pub struct Claims {
    pub sub: String,
    pub role: String,
    pub exp: usize,
}

/// Whether the Argon2 verifier accepts `password` against the PHC hash
/// string `hash`; a function of the two strings alone.
pub uninterp spec fn password_matches(hash: Seq<char>, password: Seq<char>) -> bool;

/// Relies on argon2's `Argon2::hash_password` with a fresh OS salt: the
/// result is a PHC string that the Argon2 verifier accepts for exactly
/// this password, recomputing the hash from the parameters and salt the
/// string itself records.
#[verifier::external_body]
pub fn hash_password(password: &str) -> (r: Option<String>)
    ensures
        match r {
            Some(h) => password_matches(h@, password@),
            None => true,
        },
{
    let salt = SaltString::generate(&mut OsRng);
    argon2::Argon2::default().hash_password(password.as_bytes(), &salt).ok().map(|h| h.to_string())
}

/// Relies on argon2's `Argon2::verify_password`: recomputes the hash
/// from the parameters and salt recorded in the PHC string and compares;
/// a malformed PHC string verifies nothing.
#[verifier::external_body]
pub fn verify_password(hash: &str, password: &str) -> (r: bool)
    ensures
        r == password_matches(hash@, password@),
{
    match argon2::PasswordHash::new(hash) {
        Ok(parsed) => argon2::Argon2::default().verify_password(password.as_bytes(), &parsed).is_ok(),
        Err(_) => false,
    }
}

/// Relies on jsonwebtoken's `encode` with an HS256 secret: signs the
/// claims into a compact token. Nothing is promised of the token's text.
#[verifier::external_body]
fn encode_claims(claims: &Claims, secret: &str) -> (r: Option<String>) {
    let mut payload = std::collections::HashMap::new();
    payload.insert("sub", serde_json::Value::String(claims.sub.clone()));
    payload.insert("role", serde_json::Value::String(claims.role.clone()));
    payload.insert("exp", serde_json::Value::from(claims.exp as u64));
    let key = jsonwebtoken::EncodingKey::from_secret(secret.as_bytes());
    jsonwebtoken::encode(&jsonwebtoken::Header::default(), &payload, &key).ok()
}

/// Relies on jsonwebtoken's `decode` with an HS256 secret and default
/// validation: checks the signature and the expiry against the current
/// time, so the result depends on the clock; nothing is promised of it.
#[verifier::external_body]
pub fn validate_jwt(token: &str, secret: &str) -> (r: Option<Claims>) {
    let key = jsonwebtoken::DecodingKey::from_secret(secret.as_bytes());
    let validation = jsonwebtoken::Validation::default();
    let data = jsonwebtoken::decode::<serde_json::Value>(token, &key, &validation).ok()?;
    let sub = data.claims.get("sub")?.as_str()?.to_string();
    let role = data.claims.get("role")?.as_str()?.to_string();
    let exp = data.claims.get("exp")?.as_u64()? as usize;
    Some(Claims { sub, role, exp })
}

/// How long an issued token stays valid, in seconds.
pub open spec fn spec_token_lifetime() -> i64 {
    86400
}

impl Role {
    /// The wire name of the role.
    pub open spec fn spec_name(self) -> Seq<char> {
        match self {
            Role::User => "User"@,
            Role::Admin => "Admin"@,
        }
    }

    /// The wire name of the role.
    pub fn name(&self) -> (s: String)
        ensures
            s@ == self.spec_name(),
    {
        match self {
            Role::User => String::from_str("User"),
            Role::Admin => String::from_str("Admin"),
        }
    }
}

/// Issues a session token for `user_id` in `role`, valid for a day from
/// now. The token's text is whatever the issuer produced; `None` when
/// the issuer failed.
pub fn generate_jwt(user_id: &str, role: &str, secret: &str) -> (r: Option<String>) {
    let now = crate::platform::now_timestamp();
    let exp: i64 = if now <= i64::MAX - 86400 {
        now + 86400
    } else {
        i64::MAX
    };
    let exp_usize: usize = if exp < 0 {
        0
    } else {
        #[verifier::truncate] (exp as usize)
    };
    let claims = Claims {
        sub: user_id.to_owned(),
        role: role.to_owned(),
        exp: exp_usize,
    };
    encode_claims(&claims, secret)
}

/// The decision of the OTP provider's verification-check response: the
/// code is approved when the reported status is "approved" or the
/// reported validity flag is true.
pub fn otp_approved(status: Option<String>, valid: Option<bool>) -> (r: bool)
    ensures
        r == ((status matches Some(s) && s@ == "approved"@) || valid == Some(true)),
{
    let approved = String::from_str("approved");
    let by_status = match &status {
        Some(s) => string_eq(s, &approved),
        None => false,
    };
    let by_valid = match valid {
        Some(v) => v,
        None => false,
    };
    by_status || by_valid
}

/// The index of the user with phone number `phone`; meaningful when
/// phone numbers are unique.
pub open spec fn phone_at(s: Seq<User>, phone: Seq<char>) -> int {
    choose|i: int| 0 <= i < s.len() && (#[trigger] s[i]).phone_number@ == phone
}

impl Store {
    /// The index of the user with phone number `phone`, if any.
    fn find_by_phone(&self, phone: &String) -> (r: Option<usize>)
        ensures
            match r {
                Some(i) => i < self.users@.len() && self.users@[i as int].phone_number@ == phone@,
                None => !has_phone(self.users@, phone@),
            },
    {
        let mut i: usize = 0;
        while i < self.users.len()
            invariant
                0 <= i <= self.users@.len(),
                forall|j: int| 0 <= j < i ==> (#[trigger] self.users@[j]).phone_number@ != phone@,
            decreases self.users@.len() - i,
        {
            if string_eq(&self.users[i].phone_number, phone) {
                return Some(i);
            }
            i = i + 1;
        }
        None
    }

    /// The index of the user with username `name`, if any.
    fn find_by_username(&self, name: &String) -> (r: Option<usize>)
        ensures
            match r {
                Some(i) => i < self.users@.len() && self.users@[i as int].username@ == name@,
                None => !has_username(self.users@, name@),
            },
    {
        let mut i: usize = 0;
        while i < self.users.len()
            invariant
                0 <= i <= self.users@.len(),
                forall|j: int| 0 <= j < i ==> (#[trigger] self.users@[j]).username@ != name@,
            decreases self.users@.len() - i,
        {
            if string_eq(&self.users[i].username, name) {
                return Some(i);
            }
            i = i + 1;
        }
        None
    }

    /// Registers a user once their one-time code verified (`otp_ok` is
    /// the provider's answer): rejects a taken phone number or username,
    /// hashes the password, and creates the user with no XP and an empty
    /// history. Returns the new user's id in hexadecimal form.
    pub fn verify_and_register(
        &mut self,
        otp_ok: bool,
        phone_number: String,
        username: String,
        password: String,
        role: Role,
    ) -> (r: Result<String, AuthError>)
        requires
            old(self).wf(),
            old(self).next_id < u64::MAX,
        ensures
            final(self).wf(),
            final(self).categories@ == old(self).categories@,
            final(self).questions@ == old(self).questions@,
            final(self).quizzes@ == old(self).quizzes@,
            final(self).leaderboard == old(self).leaderboard,
            match r {
                Err(AuthError::InvalidOtp) => !otp_ok && *final(self) == *old(self),
                Err(AuthError::PhoneNumberInUse) => otp_ok && has_phone(
                    old(self).users@,
                    phone_number@,
                ) && *final(self) == *old(self),
                Err(AuthError::UsernameInUse) => otp_ok && !has_phone(
                    old(self).users@,
                    phone_number@,
                ) && has_username(old(self).users@, username@) && *final(self) == *old(self),
                Err(AuthError::Upstream) => otp_ok && !has_phone(old(self).users@, phone_number@)
                    && !has_username(old(self).users@, username@) && *final(self) == *old(self),
                Ok(hex) => {
                    let u = final(self).users@.last();
                    &&& otp_ok
                    &&& !has_phone(old(self).users@, phone_number@)
                    &&& !has_username(old(self).users@, username@)
                    &&& final(self).users@.len() == old(self).users@.len() + 1
                    &&& final(self).users@.drop_last() == old(self).users@
                    &&& u.id == old(self).next_id as Oid
                    &&& u.phone_number == phone_number
                    &&& u.username == username
                    &&& password_matches(u.password_hash@, password@)
                    &&& u.role == role
                    &&& u.xp == 0
                    &&& u.quiz_history@.len() == 0
                    &&& u.profile.avatar is None
                    &&& u.profile.bio is None
                    &&& u.profile.preferred_language is None
                    &&& u.profile.country is None
                    &&& final(self).next_id == old(self).next_id + 1
                    &&& crate::ids::is_oid_str(hex@)
                    &&& crate::ids::hex_value(hex@) == u.id
                },
                _ => false,
            },
    {
        if !otp_ok {
            return Err(AuthError::InvalidOtp);
        }
        if self.find_by_phone(&phone_number).is_some() {
            return Err(AuthError::PhoneNumberInUse);
        }
        if self.find_by_username(&username).is_some() {
            return Err(AuthError::UsernameInUse);
        }
        let password_hash = match hash_password(password.as_str()) {
            Some(h) => h,
            None => {
                return Err(AuthError::Upstream);
            },
        };
        let id: Oid = self.next_id as Oid;
        self.next_id = self.next_id + 1;
        let user = User {
            id,
            phone_number,
            username,
            password_hash,
            role,
            profile: Profile { avatar: None, bio: None, preferred_language: None, country: None },
            xp: 0,
            quiz_history: Vec::new(),
        };
        self.users.push(user);
        proof {
            lemma_pow16_24();
            assert(final(self).users@.drop_last() =~= old(self).users@);
        }
        let hex = oid_to_hex(id);
        Ok(hex)
    }

    /// Logs a user in by phone number and password: finds the user,
    /// verifies the password against the stored hash, and issues a
    /// session token for the user's id and role.
    pub fn login(&self, phone_number: String, password: String, jwt_secret: &str) -> (r: Result<
        (&User, String),
        AuthError,
    >)
        requires
            self.wf(),
        ensures
            match r {
                Err(AuthError::UserNotFound) => !has_phone(self.users@, phone_number@),
                Err(AuthError::InvalidPassword) => has_phone(self.users@, phone_number@)
                    && !password_matches(
                    self.users@[phone_at(self.users@, phone_number@)].password_hash@,
                    password@,
                ),
                Err(AuthError::Upstream) => has_phone(self.users@, phone_number@)
                    && password_matches(
                    self.users@[phone_at(self.users@, phone_number@)].password_hash@,
                    password@,
                ),
                Ok((u, token)) => has_phone(self.users@, phone_number@) && *u
                    == self.users@[phone_at(self.users@, phone_number@)] && password_matches(
                    u.password_hash@,
                    password@,
                ),
                _ => false,
            },
    {
        let ui = match self.find_by_phone(&phone_number) {
            Some(i) => i,
            None => {
                return Err(AuthError::UserNotFound);
            },
        };
        proof {
            let w = phone_at(self.users@, phone_number@);
            assert(0 <= w < self.users@.len() && self.users@[w].phone_number@ == phone_number@);
            assert(w == ui as int);
        }
        let user = &self.users[ui];
        if !verify_password(user.password_hash.as_str(), password.as_str()) {
            return Err(AuthError::InvalidPassword);
        }
        let user_hex = oid_to_hex_checked(user.id);
        let role_name = user.role.name();
        match generate_jwt(user_hex.as_str(), role_name.as_str(), jwt_secret) {
            Some(token) => Ok((user, token)),
            None => Err(AuthError::Upstream),
        }
    }
}

/// The token carried by an Authorization header: the text after the
/// `Bearer ` prefix, where that prefix is present.
pub fn bearer_token(header: &str) -> (r: Option<String>)
    ensures
        match r {
            Some(t) => header@.len() >= 7 && header@.take(7) == "Bearer "@ && t@ == header@.skip(
                7,
            ),
            None => !(header@.len() >= 7 && header@.take(7) == "Bearer "@),
        },
{
    proof {
        reveal_strlit("Bearer ");
    }
    let n = header.unicode_len();
    if n < 7 {
        return None;
    }
    let prefix = "Bearer ";
    let mut i: usize = 0;
    while i < 7
        invariant
            0 <= i <= 7,
            n == header@.len(),
            n >= 7,
            prefix@ == "Bearer "@,
            prefix@.len() == 7,
            forall|j: int| 0 <= j < i ==> header@[j] == "Bearer "@[j],
        decreases 7 - i,
    {
        if header.get_char(i) != prefix.get_char(i) {
            proof {
                assert(header@.take(7)[i as int] != "Bearer "@[i as int]);
            }
            return None;
        }
        i = i + 1;
    }
    proof {
        assert(header@.take(7) =~= "Bearer "@);
    }
    let rest = header.substring_char(7, n);
    proof {
        assert(rest@ =~= header@.skip(7));
    }
    Some(rest.to_owned())
}

/// The hexadecimal form of an id, usable for any id value: ids the store
/// assigned always render exactly; a value too wide for 12 bytes (which
/// the store never assigns) renders as its low 12 bytes.
pub fn oid_to_hex_checked(id: Oid) -> (r: String)
    ensures
        crate::ids::is_oid_str(r@),
        id < crate::ids::pow16(24) ==> crate::ids::hex_value(r@) == id,
{
    proof {
        lemma_pow16_24();
    }
    let reduced: Oid = id % 0x1000000000000000000000000u128;
    proof {
        if id < 0x1000000000000000000000000u128 {
            assert(reduced == id);
        }
    }
    oid_to_hex(reduced)
}

} // verus!
