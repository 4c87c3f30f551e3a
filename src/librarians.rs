//! Token checks, login, librarian accounts and permission queries.

use vstd::prelude::*;

use crate::database::{granted_permissions, Database, Tables};
use crate::db_structs::{Bibliotecario, Permissao};
use crate::decimal::{parse_i32, parse_i32_spec};
use crate::error::AuthError;
use crate::password::{bcrypt_verdict, check_password, hash_password};
use crate::token::{get_from_jwt, issued_for, jwt_claims, new_jwt, token_of, Claims, SigningKey};

verus! {

/// The placeholder that stands for a token while no librarian exists yet.
pub const FIRST_LIBRARIAN_TOKEN: &'static str = "first_librarian";

pub open spec fn first_librarian_token() -> Seq<char> {
    seq!['f', 'i', 'r', 's', 't', '_', 'l', 'i', 'b', 'r', 'a', 'r', 'i', 'a', 'n']
}

pub open spec fn text_result(r: Result<String, AuthError>) -> Result<Seq<char>, AuthError> {
    match r {
        Ok(s) => Ok(s@),
        Err(e) => Err(e),
    }
}

/// What the claims of a verified token are worth against the tables: the
/// `id` claim must read as an `i32` and name a librarian who still exists.
pub open spec fn subject_check(
    t: Tables,
    c: (Option<Seq<char>>, Option<Seq<char>>, Option<Seq<char>>),
) -> Result<(), AuthError> {
    match c.0 {
        None => Err(AuthError::InvalidToken),
        Some(id) => match parse_i32_spec(id) {
            None => Err(AuthError::InvalidToken),
            Some(n) => if t.has_librarian(n) {
                Ok(())
            } else {
                Err(AuthError::LibrarianNotFound)
            },
        },
    }
}

/// The role claim of claims that pass `subject_check`.
pub open spec fn claims_role(
    t: Tables,
    c: (Option<Seq<char>>, Option<Seq<char>>, Option<Seq<char>>),
) -> Result<Seq<char>, AuthError> {
    match subject_check(t, c) {
        Err(e) => Err(e),
        Ok(_) => match c.2 {
            Some(role) => Ok(role),
            None => Err(AuthError::InvalidToken),
        },
    }
}

/// The outcome of checking `token` under `key` against the tables.
pub open spec fn verify_outcome(t: Tables, key: Seq<char>, token: Seq<char>) -> Result<
    (),
    AuthError,
> {
    match jwt_claims(key, token) {
        None => Err(AuthError::InvalidToken),
        Some(c) => subject_check(t, c),
    }
}

/// The role that a token that passes the check speaks for.
pub open spec fn token_role(t: Tables, key: Seq<char>, token: Seq<char>) -> Result<
    Seq<char>,
    AuthError,
> {
    match jwt_claims(key, token) {
        None => Err(AuthError::InvalidToken),
        Some(c) => claims_role(t, c),
    }
}

/// Who may create a librarian: the holder of a valid token, or anyone
/// with the first-librarian placeholder while no librarian exists.
pub open spec fn admission(t: Tables, key: Seq<char>, token: Seq<char>) -> Result<(), AuthError> {
    if token == first_librarian_token() {
        if t.librarians.len() == 0 {
            Ok(())
        } else {
            Err(AuthError::AlreadyBootstrapped)
        }
    } else {
        verify_outcome(t, key, token)
    }
}

pub open spec fn login_outcome(t: Tables, key: Seq<char>, name: Seq<char>, password: Seq<char>) -> Result<
    Seq<char>,
    AuthError,
> {
    match t.librarian_named(name) {
        None => Err(AuthError::InvalidCredentials),
        Some(l) => if bcrypt_verdict(password, l.password@) == Some(true) {
            Ok(token_of(key, l))
        } else {
            Err(AuthError::InvalidCredentials)
        },
    }
}

pub open spec fn permission_outcome(t: Tables, key: Seq<char>, token: Seq<char>, permission: i32) -> Result<
    bool,
    AuthError,
> {
    match token_role(t, key, token) {
        Err(e) => Err(e),
        Ok(role) => Ok(t.has_grant(role, permission)),
    }
}

pub open spec fn action_outcome(t: Tables, key: Seq<char>, token: Seq<char>, acao: Seq<char>) -> Result<
    bool,
    AuthError,
> {
    match t.action_id(acao) {
        None => Err(AuthError::UnknownAction),
        Some(p) => permission_outcome(t, key, token, p),
    }
}

pub open spec fn role_known(t: Tables, role: Option<String>) -> bool {
    match role {
        Some(r) => t.role_exists(r@),
        None => true,
    }
}

/// How storing a librarian whose password hashed to `hash` relates the
/// tables before and after, and the result.
pub open spec fn stored(
    before: Tables,
    after: Tables,
    r: Result<(), AuthError>,
    name: String,
    hash: String,
    role: Option<String>,
) -> bool {
    if !role_known(before, role) {
        r == Err::<(), AuthError>(AuthError::RoleNotFound) && after == before
    } else if before.next_id < i32::MAX {
        r is Ok && after == before.with_librarian(name, hash, role)
    } else {
        r matches Err(AuthError::StorageError(_)) && after == before
    }
}

/// Checks the subject of verified claims against the tables.
pub fn check_claims(db: &Database, claims: &Claims) -> (r: Result<(), AuthError>)
    ensures
        r == subject_check(db@, claims@),
{
    match &claims.id {
        None => Err(AuthError::InvalidToken),
        Some(id) => match parse_i32(id.as_str()) {
            None => Err(AuthError::InvalidToken),
            Some(n) => if db.has_librarian(n) {
                Ok(())
            } else {
                Err(AuthError::LibrarianNotFound)
            },
        },
    }
}

/// The role claim of verified claims whose subject still exists.
pub fn role_of_claims(db: &Database, claims: &Claims) -> (r: Result<String, AuthError>)
    ensures
        text_result(r) == claims_role(db@, claims@),
{
    match check_claims(db, claims) {
        Err(e) => Err(e),
        Ok(()) => match &claims.role {
            Some(role) => Ok(role.clone()),
            None => Err(AuthError::InvalidToken),
        },
    }
}

/// Checks the signature of `token` and that its subject still exists.
pub fn verify_jwt(db: &Database, key: &SigningKey, token: &str) -> (r: Result<(), AuthError>)
    ensures
        r == verify_outcome(db@, key@, token@),
{
    let claims = get_from_jwt(key, token)?;
    check_claims(db, &claims)
}

fn authorized_role(db: &Database, key: &SigningKey, token: &String) -> (r: Result<String, AuthError>)
    ensures
        text_result(r) == token_role(db@, key@, token@),
{
    let claims = get_from_jwt(key, token.as_str())?;
    role_of_claims(db, &claims)
}

fn is_first_librarian_token(token: &String) -> (r: bool)
    ensures
        r == (token@ == first_librarian_token()),
{
    proof {
        reveal_strlit("first_librarian");
    }
    let placeholder = String::from_str(FIRST_LIBRARIAN_TOKEN);
    assert(placeholder@ =~= first_librarian_token());
    token.eq(&placeholder)
}

pub(crate) fn check_admission(db: &Database, key: &SigningKey, token: &String) -> (r: Result<(), AuthError>)
    ensures
        r == admission(db@, key@, token@),
{
    if is_first_librarian_token(token) {
        if db.librarian_count() == 0 {
            Ok(())
        } else {
            Err(AuthError::AlreadyBootstrapped)
        }
    } else {
        verify_jwt(db, key, token.as_str())
    }
}

/// Ends a login once the password has been checked against `librarian`'s
/// hash: a token for `librarian` where the check said yes.
pub fn finish_login(key: &SigningKey, librarian: &Bibliotecario, verdict: Option<bool>) -> (r: Result<
    String,
    AuthError,
>)
    ensures
        verdict == Some(true) ==> (r matches Ok(t) && t@ == token_of(key@, *librarian)
            && issued_for(key@, t@, *librarian)),
        verdict != Some(true) ==> r == Err::<String, AuthError>(AuthError::InvalidCredentials),
{
    match verdict {
        Some(true) => Ok(new_jwt(key, librarian)),
        _ => Err(AuthError::InvalidCredentials),
    }
}

/// Logs in by name and password. An unknown name and a wrong password give
/// the same error.
pub fn login(db: &Database, key: &SigningKey, name: String, password: String) -> (r: Result<
    String,
    AuthError,
>)
    ensures
        text_result(r) == login_outcome(db@, key@, name@, password@),
        r is Ok ==> issued_for(key@, r->Ok_0@, db@.librarian_named(name@)->Some_0),
{
    match db.librarian_named(&name) {
        None => Err(AuthError::InvalidCredentials),
        Some(l) => {
            let verdict = check_password(password.as_str(), l.password.as_str());
            finish_login(key, l, verdict)
        },
    }
}

/// Whether any librarian exists.
pub fn check_librarians_existence(db: &Database) -> (r: bool)
    ensures
        r == (db@.librarians.len() > 0),
{
    db.librarian_count() > 0
}

/// Stores a librarian whose password has been hashed to `hash`. A role,
/// where one is given, must already hold a grant.
pub fn store_librarian(db: &mut Database, name: String, hash: String, role: Option<String>) -> (r:
    Result<(), AuthError>)
    requires
        old(db)@.wf(),
    ensures
        final(db)@.wf(),
        stored(old(db)@, final(db)@, r, name, hash, role),
{
    let known = match &role {
        Some(r) => db.role_exists(r),
        None => true,
    };
    if !known {
        return Err(AuthError::RoleNotFound);
    }
    match db.insert_librarian(name, hash, role) {
        Some(_) => Ok(()),
        None => Err(AuthError::StorageError(String::from_str("no librarian id is left"))),
    }
}

/// Creates a librarian. `token` is a valid token, or the first-librarian
/// placeholder while no librarian exists; a role, where one is given, must
/// already hold a grant. The password is stored only as a salted hash;
/// hashing fails only where the system gives no randomness.
pub fn new_librarian(
    db: &mut Database,
    key: &SigningKey,
    token: String,
    name: String,
    password: String,
    role: Option<String>,
) -> (r: Result<(), AuthError>)
    requires
        old(db)@.wf(),
    ensures
        final(db)@.wf(),
        admission(old(db)@, key@, token@) matches Err(e) ==> r == Err::<(), AuthError>(e)
            && final(db)@ == old(db)@,
        admission(old(db)@, key@, token@) is Ok && !role_known(old(db)@, role) ==> r == Err::<
            (),
            AuthError,
        >(AuthError::RoleNotFound) && final(db)@ == old(db)@,
        admission(old(db)@, key@, token@) is Ok && role_known(old(db)@, role) ==> (r matches Err(
            AuthError::StorageError(_),
        )
            && final(db)@ == old(db)@) || exists|h: String|
            bcrypt_verdict(password@, h@) == Some(true) && stored(
                old(db)@,
                final(db)@,
                r,
                name,
                h,
                role,
            ),
{
    check_admission(db, key, &token)?;
    let known = match &role {
        Some(r) => db.role_exists(r),
        None => true,
    };
    if !known {
        return Err(AuthError::RoleNotFound);
    }
    match hash_password(password.as_str()) {
        None => Err(AuthError::StorageError(String::from_str("password hashing failed"))),
        Some(h) => store_librarian(db, name, h, role),
    }
}

/// Deletes the librarian with id `id`; tokens issued for it stop working.
pub fn delete_librarian(db: &mut Database, key: &SigningKey, token: String, id: i32) -> (r: Result<
    (),
    AuthError,
>)
    requires
        old(db)@.wf(),
    ensures
        final(db)@.wf(),
        verify_outcome(old(db)@, key@, token@) matches Err(e) ==> r == Err::<(), AuthError>(e)
            && final(db)@ == old(db)@,
        verify_outcome(old(db)@, key@, token@) is Ok && !old(db)@.has_librarian(id) ==> r == Err::<
            (),
            AuthError,
        >(AuthError::LibrarianNotFound) && final(db)@ == old(db)@,
        verify_outcome(old(db)@, key@, token@) is Ok && old(db)@.has_librarian(id) ==> r is Ok
            && final(db)@ == old(db)@.without_librarian(id),
{
    verify_jwt(db, key, token.as_str())?;
    if !db.has_librarian(id) {
        return Err(AuthError::LibrarianNotFound);
    }
    db.remove_librarian(id);
    Ok(())
}

/// Whether the role named in `token` holds permission `permission_id`,
/// as the grants stand now.
pub fn does_librarian_has_permission(
    db: &Database,
    key: &SigningKey,
    token: String,
    permission_id: i32,
) -> (r: Result<bool, AuthError>)
    ensures
        r == permission_outcome(db@, key@, token@, permission_id),
{
    let role = authorized_role(db, key, &token)?;
    Ok(db.has_grant(&role, permission_id))
}

/// Whether the role named in `token` holds the permission whose action key
/// is `acao`. The key is resolved first; the check is then the one by id.
pub fn does_librarian_has_permission_by_acao(
    db: &Database,
    key: &SigningKey,
    token: String,
    acao: String,
) -> (r: Result<bool, AuthError>)
    ensures
        r == action_outcome(db@, key@, token@, acao@),
{
    match db.action_id(&acao) {
        None => Err(AuthError::UnknownAction),
        Some(p) => does_librarian_has_permission(db, key, token, p),
    }
}

/// The permissions, in table order, of the role named in `token`.
pub fn get_librarian_permissions(db: &Database, key: &SigningKey, token: String) -> (r: Result<
    Vec<Permissao>,
    AuthError,
>)
    ensures
        match token_role(db@, key@, token@) {
            Err(e) => r == Err::<Vec<Permissao>, AuthError>(e),
            Ok(role) => r matches Ok(v) && v@ == granted_permissions(
                db@.permissions,
                db@.grants,
                role,
            ),
        },
{
    let role = authorized_role(db, key, &token)?;
    Ok(db.granted_permissions(&role))
}

} // verus!
