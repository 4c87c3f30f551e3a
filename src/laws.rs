//! Properties that tie the operations together.

use vstd::prelude::*;

use crate::database::{grant_in, grants_unique, lemma_without_librarian, Tables};
use crate::db_structs::{Bibliotecario, Cargo};
use crate::decimal::lemma_parse_i32_text;
use crate::error::AuthError;
use crate::librarians::{
    admission, first_librarian_token, login_outcome, permission_outcome, role_known, stored,
    token_role, verify_outcome,
};
use crate::password::bcrypt_verdict;
use crate::roles::{add_permissions_outcome, create_role_outcome, grant_each, has_repeat, holds_any};
use crate::token::issued_for;

verus! {

/// Deleting a librarian revokes its tokens: a token issued for librarian
/// `l`, checked after `l` is deleted, gives `LibrarianNotFound`.
pub proof fn lemma_deleted_librarian_token(t: Tables, key: Seq<char>, token: Seq<char>, l: Bibliotecario)
    requires
        issued_for(key, token, l),
    ensures
        verify_outcome(t.without_librarian(l.id), key, token) == Err::<(), AuthError>(
            AuthError::LibrarianNotFound,
        ),
{
    lemma_parse_i32_text(l.id);
    lemma_without_librarian(t.librarians, l.id);
    let after = t.without_librarian(l.id);
    assert(!after.has_librarian(l.id));
}

/// A login with an unknown name and a login with a known name but a wrong
/// password fail alike, with `InvalidCredentials`.
pub proof fn lemma_login_failures_alike(
    t: Tables,
    key: Seq<char>,
    unknown_name: Seq<char>,
    password: Seq<char>,
    known_name: Seq<char>,
    wrong_password: Seq<char>,
)
    requires
        t.librarian_named(unknown_name) is None,
        t.librarian_named(known_name) matches Some(l) && bcrypt_verdict(
            wrong_password,
            l.password@,
        ) != Some(true),
    ensures
        login_outcome(t, key, unknown_name, password) == Err::<Seq<char>, AuthError>(
            AuthError::InvalidCredentials,
        ),
        login_outcome(t, key, known_name, wrong_password) == login_outcome(
            t,
            key,
            unknown_name,
            password,
        ),
{
}

/// The first-librarian placeholder works once: on tables without
/// librarians it is admitted and the librarian is stored; on the tables
/// that result it is refused with `AlreadyBootstrapped`.
pub proof fn lemma_bootstrap_once(
    t: Tables,
    key: Seq<char>,
    name: String,
    hash: String,
    role: Option<String>,
)
    requires
        t.wf(),
        t.librarians.len() == 0,
        t.next_id < i32::MAX,
        role_known(t, role),
    ensures
        admission(t, key, first_librarian_token()) == Ok::<(), AuthError>(()),
        stored(t, t.with_librarian(name, hash, role), Ok(()), name, hash, role),
        admission(t.with_librarian(name, hash, role), key, first_librarian_token()) == Err::<
            (),
            AuthError,
        >(AuthError::AlreadyBootstrapped),
{
}

/// Permission checks read the grants as they stand: once the role of a
/// token is granted permission `x`, the same token's check for `x` turns
/// from false to true.
pub proof fn lemma_grant_seen(t: Tables, key: Seq<char>, token: Seq<char>, role: String, x: i32)
    requires
        token_role(t, key, token) == Ok::<Seq<char>, AuthError>(role@),
        !t.has_grant(role@, x),
    ensures
        permission_outcome(t, key, token, x) == Ok::<bool, AuthError>(false),
        permission_outcome(
            Tables { grants: grant_each(t.grants, role, seq![x]), ..t },
            key,
            token,
            x,
        ) == Ok::<bool, AuthError>(true),
{
    let after = Tables { grants: grant_each(t.grants, role, seq![x]), ..t };
    assert(seq![x].drop_last() =~= Seq::<i32>::empty());
    assert(grant_each(t.grants, role, Seq::<i32>::empty()) == t.grants);
    assert(seq![x].last() == x);
    assert(after.grants == t.grants.push(Cargo { nome: role, permissao: x }));
    assert(after.grants[t.grants.len() as int] == Cargo { nome: role, permissao: x });
    assert(after.has_grant(role@, x));
    assert(token_role(after, key, token) == token_role(t, key, token));
}

proof fn lemma_grant_each(g: Seq<Cargo>, role: String, perms: Seq<i32>)
    ensures
        g.len() <= grant_each(g, role, perms).len(),
        forall|k: int| 0 <= k < g.len() ==> #[trigger] grant_each(g, role, perms)[k] == g[k],
        forall|i: int| 0 <= i < perms.len() ==> grant_in(grant_each(g, role, perms), role@, #[trigger] perms[i]),
        grants_unique(g) ==> grants_unique(grant_each(g, role, perms)),
    decreases perms.len(),
{
    if perms.len() > 0 {
        let front = perms.drop_last();
        lemma_grant_each(g, role, front);
        let r = grant_each(g, role, front);
        let out = grant_each(g, role, perms);
        assert forall|i: int| 0 <= i < perms.len() implies grant_in(out, role@, #[trigger] perms[i]) by {
            if i < perms.len() - 1 {
                assert(front[i] == perms[i]);
                assert(grant_in(r, role@, front[i]));
                let k = choose|k: int| 0 <= k < r.len() && (#[trigger] r[k]).nome@ == role@
                    && r[k].permissao == front[i];
                assert(out[k] == r[k]);
            } else if !grant_in(r, role@, perms.last()) {
                assert(out[r.len() as int] == Cargo { nome: role, permissao: perms.last() });
            }
        }
        if grants_unique(g) && !grant_in(r, role@, perms.last()) {
            let c = Cargo { nome: role, permissao: perms.last() };
            assert(out == r.push(c));
            assert forall|i: int, j: int| 0 <= i < j < out.len() implies !((#[trigger] out[i]).nome@
                == (#[trigger] out[j]).nome@ && out[i].permissao == out[j].permissao) by {
                assert(out[i] == r[i]);
                if j < r.len() {
                    assert(out[j] == r[j]);
                } else {
                    assert(out[j] == c);
                    if r[i].nome@ == role@ && r[i].permissao == perms.last() {
                        assert(grant_in(r, role@, perms.last()));
                    }
                }
            }
        }
    }
}

/// Creating a role is all or nothing: where the list names a permission
/// that the role already holds, or grants something twice, the call fails
/// with `AlreadyGranted` and stores nothing. Adding the same list to a role
/// instead applies each entry on its own: every listed permission ends up
/// granted, those already held are passed over, and no grant is stored
/// twice.
pub proof fn lemma_create_role_all_or_nothing(
    t: Tables,
    key: Seq<char>,
    token: Seq<char>,
    role: String,
    perms: Seq<i32>,
)
    requires
        verify_outcome(t, key, token) is Ok,
        holds_any(t, role@, perms) || (!t.role_exists(role@) && has_repeat(perms)),
    ensures
        create_role_outcome(t, key, token, role, perms) == (
        Err::<(), AuthError>(AuthError::AlreadyGranted),
        t,
        ),
        forall|i: int|
            0 <= i < perms.len() && admission(t, key, token) is Ok ==> grant_in(
                add_permissions_outcome(t, key, token, role, perms).1.grants,
                role@,
                #[trigger] perms[i],
            ),
        admission(t, key, token) is Ok && grants_unique(t.grants) ==> grants_unique(
            add_permissions_outcome(t, key, token, role, perms).1.grants,
        ),
{
    lemma_grant_each(t.grants, role, perms);
}

} // verus!
