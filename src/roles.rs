//! Roles: named sets of grants, and the commands that manage them.

use vstd::prelude::*;

use crate::database::{grant_in, role_permission_ids, without_role, Database, Tables};
use crate::db_structs::{Cargo, Permissao};
use crate::error::AuthError;
use crate::librarians::{admission, check_admission, verify_jwt, verify_outcome};
use crate::token::SigningKey;

verus! {

/// A role and the ids of the permissions that it holds.
#[derive(Debug, PartialEq, Eq)]
pub struct RoleResponse {
    pub name: String,
    pub permissions: Vec<i32>,
}

/// Some value occurs twice in `s`.
pub open spec fn has_repeat(s: Seq<i32>) -> bool {
    exists|i: int, j: int| 0 <= i < j < s.len() && #[trigger] s[i] == #[trigger] s[j]
}

/// The grants of each of `perms`, in order, to `role`.
pub open spec fn grants_for(role: String, perms: Seq<i32>) -> Seq<Cargo> {
    Seq::new(perms.len(), |i: int| Cargo { nome: role, permissao: perms[i] })
}

/// `grants` after granting each of `perms` in turn to `role`, passing over
/// the grants that are already there.
pub open spec fn grant_each(grants: Seq<Cargo>, role: String, perms: Seq<i32>) -> Seq<Cargo>
    decreases perms.len(),
{
    if perms.len() == 0 {
        grants
    } else {
        let g = grant_each(grants, role, perms.drop_last());
        if grant_in(g, role@, perms.last()) {
            g
        } else {
            g.push(Cargo { nome: role, permissao: perms.last() })
        }
    }
}

/// Some permission of `perms` is already granted to `role`.
pub open spec fn holds_any(t: Tables, role: Seq<char>, perms: Seq<i32>) -> bool {
    exists|i: int| 0 <= i < perms.len() && t.has_grant(role, #[trigger] perms[i])
}

/// The result and the tables after creating `role` with `perms`: the token
/// must pass, the list must not name a permission that the role already
/// holds, the name must be new, and the list must not grant anything twice;
/// otherwise nothing is stored.
pub open spec fn create_role_outcome(
    t: Tables,
    key: Seq<char>,
    token: Seq<char>,
    role: String,
    perms: Seq<i32>,
) -> (Result<(), AuthError>, Tables) {
    match verify_outcome(t, key, token) {
        Err(e) => (Err(e), t),
        Ok(_) => if holds_any(t, role@, perms) {
            (Err(AuthError::AlreadyGranted), t)
        } else if t.role_exists(role@) {
            (Err(AuthError::RoleAlreadyExists), t)
        } else if has_repeat(perms) {
            (Err(AuthError::AlreadyGranted), t)
        } else {
            (Ok(()), Tables { grants: t.grants + grants_for(role, perms), ..t })
        },
    }
}

/// The result and the tables after granting `perms` to `role` one by one.
pub open spec fn add_permissions_outcome(
    t: Tables,
    key: Seq<char>,
    token: Seq<char>,
    role: String,
    perms: Seq<i32>,
) -> (Result<String, AuthError>, Tables) {
    match admission(t, key, token) {
        Err(e) => (Err(e), t),
        Ok(_) => (Ok(role), Tables { grants: grant_each(t.grants, role, perms), ..t }),
    }
}

/// Whether some value occurs twice in `v`.
pub fn has_duplicate(v: &Vec<i32>) -> (r: bool)
    ensures
        r == has_repeat(v@),
{
    let n = v.len();
    let mut j: usize = 0;
    while j < n
        invariant
            n == v@.len(),
            0 <= j <= n,
            forall|a: int, b: int| 0 <= a < b < j ==> v@[a] != v@[b],
        decreases n - j,
    {
        let mut i: usize = 0;
        while i < j
            invariant
                n == v@.len(),
                0 <= i <= j < n,
                forall|a: int| 0 <= a < i ==> v@[a] != v@[j as int],
            decreases j - i,
        {
            if v[i] == v[j] {
                assert(v@[i as int] == v@[j as int]);
                return true;
            }
            i = i + 1;
        }
        j = j + 1;
    }
    false
}

/// Whether `role` already holds some permission of `perms`.
pub fn holds_any_permission(db: &Database, role: &String, perms: &Vec<i32>) -> (r: bool)
    ensures
        r == holds_any(db@, role@, perms@),
{
    let mut i: usize = 0;
    while i < perms.len()
        invariant
            0 <= i <= perms@.len(),
            forall|j: int| 0 <= j < i ==> !db@.has_grant(role@, #[trigger] perms@[j]),
        decreases perms@.len() - i,
    {
        if db.has_grant(role, perms[i]) {
            return true;
        }
        i = i + 1;
    }
    false
}

/// Creates `role` holding `permissions`. A permission that the role
/// already holds fails the whole call with `AlreadyGranted`; so does a list
/// that grants something twice; the name must be new. Where it fails,
/// nothing is stored.
pub fn create_role(
    db: &mut Database,
    key: &SigningKey,
    token: String,
    role: String,
    permissions: Vec<i32>,
) -> (r: Result<(), AuthError>)
    requires
        old(db)@.wf(),
    ensures
        final(db)@.wf(),
        (r, final(db)@) == create_role_outcome(old(db)@, key@, token@, role, permissions@),
{
    verify_jwt(db, key, token.as_str())?;
    if holds_any_permission(db, &role, &permissions) {
        return Err(AuthError::AlreadyGranted);
    }
    if db.role_exists(&role) {
        return Err(AuthError::RoleAlreadyExists);
    }
    if has_duplicate(&permissions) {
        return Err(AuthError::AlreadyGranted);
    }
    let n = permissions.len();
    let mut i: usize = 0;
    while i < n
        invariant
            n == permissions@.len(),
            0 <= i <= n,
            db@ == (Tables {
                grants: old(db)@.grants + grants_for(role, permissions@.take(i as int)),
                ..old(db)@
            }),
        decreases n - i,
    {
        db.push_grant(role.clone(), permissions[i]);
        i = i + 1;
        assert(db@.grants =~= old(db)@.grants + grants_for(role, permissions@.take(i as int)));
    }
    assert(permissions@.take(n as int) =~= permissions@);
    Ok(())
}

/// Grants each of `permissions` to `role`, passing over those that it
/// already holds, and returns the role's name. `token` is a valid token,
/// or the first-librarian placeholder while no librarian exists.
pub fn add_permission_to_role(
    db: &mut Database,
    key: &SigningKey,
    token: String,
    role: String,
    permissions: Vec<i32>,
) -> (r: Result<String, AuthError>)
    requires
        old(db)@.wf(),
    ensures
        final(db)@.wf(),
        (r, final(db)@) == add_permissions_outcome(old(db)@, key@, token@, role, permissions@),
{
    check_admission(db, key, &token)?;
    let n = permissions.len();
    let mut i: usize = 0;
    while i < n
        invariant
            n == permissions@.len(),
            0 <= i <= n,
            db@ == (Tables {
                grants: grant_each(old(db)@.grants, role, permissions@.take(i as int)),
                ..old(db)@
            }),
        decreases n - i,
    {
        assert(permissions@.take(i + 1).drop_last() =~= permissions@.take(i as int));
        if !db.has_grant(&role, permissions[i]) {
            db.push_grant(role.clone(), permissions[i]);
        }
        i = i + 1;
    }
    assert(permissions@.take(n as int) =~= permissions@);
    Ok(role)
}

/// Replaces the grants of `role` by `permissions`, under the name
/// `new_role_name` where one is given. A list that grants something twice
/// stores nothing.
pub fn update_role(
    db: &mut Database,
    key: &SigningKey,
    token: String,
    role: String,
    new_role_name: Option<String>,
    permissions: Vec<i32>,
) -> (r: Result<(), AuthError>)
    requires
        old(db)@.wf(),
    ensures
        final(db)@.wf(),
        verify_outcome(old(db)@, key@, token@) matches Err(e) ==> r == Err::<(), AuthError>(e)
            && final(db)@ == old(db)@,
        verify_outcome(old(db)@, key@, token@) is Ok ==> if has_repeat(permissions@) {
            r == Err::<(), AuthError>(AuthError::AlreadyGranted) && final(db)@ == old(db)@
        } else {
            r is Ok && final(db)@ == (Tables {
                grants: without_role(old(db)@.grants, role@) + grants_for(
                    match new_role_name {
                        Some(n) => n,
                        None => role,
                    },
                    permissions@,
                ),
                ..old(db)@
            })
        },
{
    verify_jwt(db, key, token.as_str())?;
    if has_duplicate(&permissions) {
        return Err(AuthError::AlreadyGranted);
    }
    db.remove_role_grants(&role);
    let name = match new_role_name {
        Some(n) => n,
        None => role,
    };
    let ghost cleared = db@;
    let n = permissions.len();
    let mut i: usize = 0;
    while i < n
        invariant
            n == permissions@.len(),
            0 <= i <= n,
            db@ == (Tables {
                grants: cleared.grants + grants_for(name, permissions@.take(i as int)),
                ..cleared
            }),
        decreases n - i,
    {
        db.push_grant(name.clone(), permissions[i]);
        i = i + 1;
        assert(db@.grants =~= cleared.grants + grants_for(name, permissions@.take(i as int)));
    }
    assert(permissions@.take(n as int) =~= permissions@);
    Ok(())
}

/// Deletes `role`: its grants go, and the librarians who held it are left
/// without a role.
pub fn delete_role(db: &mut Database, key: &SigningKey, token: String, role: String) -> (r: Result<
    (),
    AuthError,
>)
    requires
        old(db)@.wf(),
    ensures
        final(db)@.wf(),
        verify_outcome(old(db)@, key@, token@) matches Err(e) ==> r == Err::<(), AuthError>(e)
            && final(db)@ == old(db)@,
        verify_outcome(old(db)@, key@, token@) is Ok && !old(db)@.role_exists(role@) ==> r
            == Err::<(), AuthError>(AuthError::RoleNotFound) && final(db)@ == old(db)@,
        verify_outcome(old(db)@, key@, token@) is Ok && old(db)@.role_exists(role@) ==> r is Ok
            && final(db)@ == old(db)@.without_role(role@),
{
    verify_jwt(db, key, token.as_str())?;
    if !db.role_exists(&role) {
        return Err(AuthError::RoleNotFound);
    }
    db.remove_role(&role);
    Ok(())
}

/// `role` with the ids of its permissions, in the order of the grants.
pub fn get_role_by_name(db: &Database, key: &SigningKey, token: String, role: String) -> (r: Result<
    RoleResponse,
    AuthError,
>)
    ensures
        verify_outcome(db@, key@, token@) matches Err(e) ==> r == Err::<RoleResponse, AuthError>(
            e,
        ),
        verify_outcome(db@, key@, token@) is Ok ==> if role_permission_ids(db@.grants, role@).len()
            == 0 {
            r == Err::<RoleResponse, AuthError>(AuthError::RoleNotFound)
        } else {
            r matches Ok(resp) && resp.name == role && resp.permissions@ == role_permission_ids(
                db@.grants,
                role@,
            )
        },
{
    verify_jwt(db, key, token.as_str())?;
    let permissions = db.role_permission_ids(&role);
    if permissions.len() == 0 {
        return Err(AuthError::RoleNotFound);
    }
    Ok(RoleResponse { name: role, permissions })
}

/// Every grant, in table order.
pub fn get_roles(db: &Database, key: &SigningKey, token: String) -> (r: Result<Vec<Cargo>, AuthError>)
    ensures
        verify_outcome(db@, key@, token@) matches Err(e) ==> r == Err::<Vec<Cargo>, AuthError>(e),
        verify_outcome(db@, key@, token@) is Ok ==> (r matches Ok(v) && v@ == db@.grants),
{
    verify_jwt(db, key, token.as_str())?;
    Ok(db.grant_rows())
}

/// The permission reference table.
pub fn get_permissions(db: &Database) -> (r: Vec<Permissao>)
    ensures
        r@ == db@.permissions,
{
    db.permission_rows()
}

} // verus!
