//! Signed session tokens: a claim set {id, name, role} under HMAC-SHA256,
//! with no expiry. The key lives as long as the process that made it, so a
//! restart invalidates every token issued before it.

use hmac::{Hmac, Mac};
use jwt::{SignWithKey, VerifyWithKey};
use sha2::Sha256;
use std::collections::BTreeMap;
use vstd::prelude::*;

use crate::db_structs::Bibliotecario;
use crate::decimal::{format_i64, format_i32, i32_text, i64_text};
use crate::error::AuthError;

verus! {

/// The token that jwt signs for the claims `id`, `name`, `role` under the
/// HMAC key `secret`.
pub uninterp spec fn jwt_signed(
    secret: Seq<char>,
    id: Seq<char>,
    name: Seq<char>,
    role: Seq<char>,
) -> Seq<char>;

/// The claims `id`, `name` and `role` that jwt reads from `token` under the
/// HMAC key `secret`, or `None` where the token is malformed or its
/// signature does not match.
pub uninterp spec fn jwt_claims(secret: Seq<char>, token: Seq<char>) -> Option<
    (Option<Seq<char>>, Option<Seq<char>>, Option<Seq<char>>),
>;

/// Relies on jwt's `SignWithKey` on a map of strings, with an HMAC-SHA256 key
/// made by hmac's `Mac::new_from_slice` (which takes a key of any length):
/// the token depends on the key and the claims alone, and jwt's
/// `VerifyWithKey` under the same key reads the same claims back.
#[verifier::external_body]
fn sign_claims(secret: &str, id: &str, name: &str, role: &str) -> (r: String)
    ensures
        r@ == jwt_signed(secret@, id@, name@, role@),
        jwt_claims(secret@, r@) == Some((Some(id@), Some(name@), Some(role@))),
{
    let key: Hmac<Sha256> = Hmac::new_from_slice(secret.as_bytes()).unwrap();
    let mut claims: BTreeMap<&str, &str> = BTreeMap::new();
    claims.insert("id", id);
    claims.insert("name", name);
    claims.insert("role", role);
    claims.sign_with_key(&key).unwrap()
}

/// Relies on jwt's `VerifyWithKey` into a map of strings, with an
/// HMAC-SHA256 key made by hmac's `Mac::new_from_slice`: `None` where the
/// token does not verify, else the three claims that it carries.
#[verifier::external_body]
fn read_claims(secret: &str, token: &str) -> (r: Option<Claims>)
    ensures
        claims_view(r) == jwt_claims(secret@, token@),
{
    let key: Hmac<Sha256> = Hmac::new_from_slice(secret.as_bytes()).unwrap();
    let claims: Result<BTreeMap<String, String>, jwt::Error> = token.verify_with_key(&key);
    match claims {
        Ok(c) => Some(
            Claims {
                id: c.get("id").cloned(),
                name: c.get("name").cloned(),
                role: c.get("role").cloned(),
            },
        ),
        Err(_) => None,
    }
}

/// Relies on chrono's `Utc::now` and `timestamp`: seconds since the Unix
/// epoch; nothing is promised of the value.
#[verifier::external_body]
fn unix_now() -> i64 {
    chrono::Utc::now().timestamp()
}

pub open spec fn opt_view(o: Option<String>) -> Option<Seq<char>> {
    match o {
        Some(s) => Some(s@),
        None => None,
    }
}

/// The claims read from a verified token.
pub struct Claims {
    pub id: Option<String>,
    pub name: Option<String>,
    pub role: Option<String>,
}

impl View for Claims {
    type V = (Option<Seq<char>>, Option<Seq<char>>, Option<Seq<char>>);

    open spec fn view(&self) -> Self::V {
        (opt_view(self.id), opt_view(self.name), opt_view(self.role))
    }
}

pub open spec fn claims_view(c: Option<Claims>) -> Option<
    (Option<Seq<char>>, Option<Seq<char>>, Option<Seq<char>>),
> {
    match c {
        Some(c) => Some(c@),
        None => None,
    }
}

/// The key that signs and checks tokens. One is made when the process
/// starts and handed to every operation that issues or checks a token.
pub struct SigningKey {
    secret: String,
}

impl View for SigningKey {
    type V = Seq<char>;

    closed spec fn view(&self) -> Seq<char> {
        self.secret@
    }
}

impl SigningKey {
    pub fn new(secret: String) -> (r: SigningKey)
        ensures
            r@ == secret@,
    {
        SigningKey { secret }
    }

    /// A key made from the clock: the decimal text of the current Unix
    /// time in seconds.
    pub fn from_clock() -> (r: SigningKey)
        ensures
            exists|t: i64| r@ == i64_text(t),
    {
        SigningKey { secret: format_i64(unix_now()) }
    }
}

/// The role claim of a librarian's tokens: the role's name, or the empty
/// text for a librarian without one.
pub open spec fn role_claim(l: Bibliotecario) -> Seq<char> {
    match l.cargo {
        Some(r) => r@,
        None => Seq::empty(),
    }
}

/// The claims that a token issued for `l` carries.
pub open spec fn claims_of(l: Bibliotecario) -> (
    Option<Seq<char>>,
    Option<Seq<char>>,
    Option<Seq<char>>,
) {
    (Some(i32_text(l.id)), Some(l.nome@), Some(role_claim(l)))
}

/// The token issued for `l` under `key`.
pub open spec fn token_of(key: Seq<char>, l: Bibliotecario) -> Seq<char> {
    jwt_signed(key, i32_text(l.id), l.nome@, role_claim(l))
}

/// `token` verifies under `key` and carries the claims of `l`.
pub open spec fn issued_for(key: Seq<char>, token: Seq<char>, l: Bibliotecario) -> bool {
    jwt_claims(key, token) == Some(claims_of(l))
}

/// Issues a token for `librarian`: its id in decimal, its name and its role.
pub fn new_jwt(key: &SigningKey, librarian: &Bibliotecario) -> (r: String)
    ensures
        r@ == token_of(key@, *librarian),
        issued_for(key@, r@, *librarian),
{
    let id = format_i32(librarian.id);
    let empty = String::new();
    let role = match &librarian.cargo {
        Some(r) => r,
        None => &empty,
    };
    sign_claims(key.secret.as_str(), id.as_str(), librarian.nome.as_str(), role.as_str())
}

/// Checks the signature of `token` and reads its claims.
pub fn get_from_jwt(key: &SigningKey, token: &str) -> (r: Result<Claims, AuthError>)
    ensures
        match r {
            Ok(c) => jwt_claims(key@, token@) == Some(c@),
            Err(e) => jwt_claims(key@, token@).is_none() && e == AuthError::InvalidToken,
        },
{
    match read_claims(key.secret.as_str(), token) {
        Some(c) => Ok(c),
        None => Err(AuthError::InvalidToken),
    }
}

} // verus!
