//! An in-memory image of the credential tables: librarians, the grants
//! that make up each role, and the permission reference table.

use vstd::prelude::*;

use crate::db_structs::{clone_opt_string, Bibliotecario, Cargo, Permissao};

verus! {

/// The tables as values. A role has no row of its own: it is the set of
/// grants that carry its name.
pub struct Tables {
    pub librarians: Seq<Bibliotecario>,
    pub grants: Seq<Cargo>,
    pub permissions: Seq<Permissao>,
    /// The id that the next librarian receives.
    pub next_id: int,
}

/// Index of the first librarian at or after `i` whose name is `name`.
pub open spec fn name_index_from(s: Seq<Bibliotecario>, name: Seq<char>, i: int) -> Option<int>
    decreases s.len() - i,
{
    if i < 0 || i >= s.len() {
        None
    } else if s[i].nome@ == name {
        Some(i)
    } else {
        name_index_from(s, name, i + 1)
    }
}

/// Index of the first permission at or after `i` whose action key is `acao`.
pub open spec fn action_index_from(s: Seq<Permissao>, acao: Seq<char>, i: int) -> Option<int>
    decreases s.len() - i,
{
    if i < 0 || i >= s.len() {
        None
    } else if s[i].acao@ == acao {
        Some(i)
    } else {
        action_index_from(s, acao, i + 1)
    }
}

pub open spec fn grant_in(grants: Seq<Cargo>, role: Seq<char>, permission: i32) -> bool {
    exists|i: int|
        0 <= i < grants.len() && (#[trigger] grants[i]).nome@ == role && grants[i].permissao
            == permission
}

/// No grant is stored twice.
pub open spec fn grants_unique(g: Seq<Cargo>) -> bool {
    forall|i: int, j: int|
        0 <= i < j < g.len() ==> !((#[trigger] g[i]).nome@ == (#[trigger] g[j]).nome@
            && g[i].permissao == g[j].permissao)
}

pub open spec fn ids_unique(s: Seq<Bibliotecario>) -> bool {
    forall|i: int, j: int| 0 <= i < j < s.len() ==> (#[trigger] s[i]).id != (#[trigger] s[j]).id
}

/// The librarians other than those with id `id`, in order.
pub open spec fn without_librarian(s: Seq<Bibliotecario>, id: i32) -> Seq<Bibliotecario>
    decreases s.len(),
{
    if s.len() == 0 {
        s
    } else {
        let r = without_librarian(s.drop_last(), id);
        if s.last().id == id {
            r
        } else {
            r.push(s.last())
        }
    }
}

/// The grants of roles other than `role`, in order.
pub open spec fn without_role(s: Seq<Cargo>, role: Seq<char>) -> Seq<Cargo>
    decreases s.len(),
{
    if s.len() == 0 {
        s
    } else {
        let r = without_role(s.drop_last(), role);
        if s.last().nome@ == role {
            r
        } else {
            r.push(s.last())
        }
    }
}

/// The permission ids granted to `role`, in the order of the grants.
pub open spec fn role_permission_ids(s: Seq<Cargo>, role: Seq<char>) -> Seq<i32>
    decreases s.len(),
{
    if s.len() == 0 {
        Seq::empty()
    } else {
        let r = role_permission_ids(s.drop_last(), role);
        if s.last().nome@ == role {
            r.push(s.last().permissao)
        } else {
            r
        }
    }
}

/// The permissions, in table order, that `grants` gives to `role`.
pub open spec fn granted_permissions(
    perms: Seq<Permissao>,
    grants: Seq<Cargo>,
    role: Seq<char>,
) -> Seq<Permissao>
    decreases perms.len(),
{
    if perms.len() == 0 {
        perms
    } else {
        let r = granted_permissions(perms.drop_last(), grants, role);
        if grant_in(grants, role, perms.last().id) {
            r.push(perms.last())
        } else {
            r
        }
    }
}

/// `l` with its role taken away if that role is `role`.
pub open spec fn cleared(l: Bibliotecario, role: Seq<char>) -> Bibliotecario {
    match l.cargo {
        Some(r) => if r@ == role {
            Bibliotecario { cargo: None, ..l }
        } else {
            l
        },
        None => l,
    }
}

pub open spec fn role_cleared(s: Seq<Bibliotecario>, role: Seq<char>) -> Seq<Bibliotecario> {
    Seq::new(s.len(), |i: int| cleared(s[i], role))
}

impl Tables {
    /// Librarian ids are unique and lie below the next one to be handed
    /// out, so a new id is never in use.
    pub open spec fn wf(self) -> bool {
        &&& 1 <= self.next_id <= i32::MAX
        &&& forall|i: int|
            0 <= i < self.librarians.len() ==> 1 <= #[trigger] self.librarians[i].id
                < self.next_id
        &&& ids_unique(self.librarians)
    }

    pub open spec fn has_librarian(self, id: i32) -> bool {
        exists|i: int| 0 <= i < self.librarians.len() && (#[trigger] self.librarians[i]).id == id
    }

    pub open spec fn role_exists(self, role: Seq<char>) -> bool {
        exists|i: int| 0 <= i < self.grants.len() && (#[trigger] self.grants[i]).nome@ == role
    }

    pub open spec fn has_grant(self, role: Seq<char>, permission: i32) -> bool {
        grant_in(self.grants, role, permission)
    }

    /// The first librarian named `name`.
    pub open spec fn librarian_named(self, name: Seq<char>) -> Option<Bibliotecario> {
        match name_index_from(self.librarians, name, 0) {
            Some(i) => Some(self.librarians[i]),
            None => None,
        }
    }

    /// The id of the permission whose action key is `acao`.
    pub open spec fn action_id(self, acao: Seq<char>) -> Option<i32> {
        match action_index_from(self.permissions, acao, 0) {
            Some(i) => Some(self.permissions[i].id),
            None => None,
        }
    }

    /// These tables after a new librarian is stored under the next id.
    pub open spec fn with_librarian(
        self,
        nome: String,
        password: String,
        cargo: Option<String>,
    ) -> Tables {
        Tables {
            librarians: self.librarians.push(
                Bibliotecario { id: self.next_id as i32, nome, password, cargo },
            ),
            next_id: self.next_id + 1,
            ..self
        }
    }

    pub open spec fn without_librarian(self, id: i32) -> Tables {
        Tables { librarians: without_librarian(self.librarians, id), ..self }
    }

    pub open spec fn with_grant(self, role: String, permission: i32) -> Tables {
        Tables { grants: self.grants.push(Cargo { nome: role, permissao: permission }), ..self }
    }

    /// These tables after role `role` is deleted: its grants go, and the
    /// librarians who held it are left without a role.
    pub open spec fn without_role(self, role: Seq<char>) -> Tables {
        Tables {
            librarians: role_cleared(self.librarians, role),
            grants: without_role(self.grants, role),
            ..self
        }
    }
}

pub proof fn lemma_without_librarian(s: Seq<Bibliotecario>, id: i32)
    ensures
        forall|j: int|
            0 <= j < without_librarian(s, id).len() ==> s.contains(
                #[trigger] without_librarian(s, id)[j],
            ) && without_librarian(s, id)[j].id != id,
        ids_unique(s) ==> ids_unique(without_librarian(s, id)),
    decreases s.len(),
{
    if s.len() > 0 {
        let front = s.drop_last();
        lemma_without_librarian(front, id);
        let r = without_librarian(front, id);
        assert forall|j: int| 0 <= j < r.len() implies s.contains(#[trigger] r[j]) by {
            assert(front.contains(r[j]));
            let k = choose|k: int| 0 <= k < front.len() && front[k] == r[j];
            assert(s[k] == r[j]);
        }
        assert(s[s.len() - 1] == s.last());
        if ids_unique(s) {
            assert forall|i: int, j: int| 0 <= i < j < front.len() implies (#[trigger] front[i]).id
                != (#[trigger] front[j]).id by {
                assert(front[i] == s[i] && front[j] == s[j]);
            }
            assert forall|j: int| 0 <= j < r.len() implies (#[trigger] r[j]).id != s.last().id by {
                assert(front.contains(r[j]));
                let k = choose|k: int| 0 <= k < front.len() && front[k] == r[j];
                assert(s[k] == r[j]);
            }
            let out = without_librarian(s, id);
            if s.last().id != id {
                assert forall|i: int, j: int| 0 <= i < j < out.len() implies (#[trigger] out[i]).id
                    != (#[trigger] out[j]).id by {
                    if j == r.len() {
                        assert(out[i] == r[i]);
                    } else {
                        assert(out[i] == r[i] && out[j] == r[j]);
                    }
                }
            }
        }
    }
}

/// The credential tables, held in memory.
pub struct Database {
    librarians: Vec<Bibliotecario>,
    grants: Vec<Cargo>,
    permissions: Vec<Permissao>,
    next_id: i32,
}

impl View for Database {
    type V = Tables;

    closed spec fn view(&self) -> Tables {
        Tables {
            librarians: self.librarians@,
            grants: self.grants@,
            permissions: self.permissions@,
            next_id: self.next_id as int,
        }
    }
}

impl Database {
    /// Empty tables; the first librarian will get id 1.
    pub fn new() -> (r: Database)
        ensures
            r@.librarians.len() == 0,
            r@.grants.len() == 0,
            r@.permissions.len() == 0,
            r@.next_id == 1,
            r@.wf(),
    {
        Database { librarians: Vec::new(), grants: Vec::new(), permissions: Vec::new(), next_id: 1 }
    }

    /// Adds a row of the permission reference table.
    pub fn add_permission(&mut self, p: Permissao)
        ensures
            final(self)@ == (Tables { permissions: old(self)@.permissions.push(p), ..old(self)@ }),
    {
        self.permissions.push(p);
    }

    /// Adds a stored grant row.
    pub fn add_grant(&mut self, g: Cargo)
        ensures
            final(self)@ == (Tables { grants: old(self)@.grants.push(g), ..old(self)@ }),
    {
        self.grants.push(g);
    }

    /// Adds a stored librarian row, as read from storage. Refused (`false`,
    /// nothing changed) where its id is in use, is below 1, or is the
    /// largest `i32`, which leaves no id for a later librarian.
    pub fn add_librarian(&mut self, l: Bibliotecario) -> (r: bool)
        requires
            old(self)@.wf(),
        ensures
            r == (1 <= l.id < i32::MAX && !old(self)@.has_librarian(l.id)),
            final(self)@.wf(),
            r ==> final(self)@ == (Tables {
                librarians: old(self)@.librarians.push(l),
                next_id: if l.id + 1 > old(self)@.next_id {
                    l.id + 1
                } else {
                    old(self)@.next_id
                },
                ..old(self)@
            }),
            !r ==> final(self)@ == old(self)@,
    {
        if l.id < 1 || l.id == i32::MAX || self.has_librarian(l.id) {
            return false;
        }
        if l.id + 1 > self.next_id {
            self.next_id = l.id + 1;
        }
        self.librarians.push(l);
        true
    }

    pub fn librarian_count(&self) -> (r: usize)
        ensures
            r == self@.librarians.len(),
    {
        self.librarians.len()
    }

    pub fn has_librarian(&self, id: i32) -> (r: bool)
        ensures
            r == self@.has_librarian(id),
    {
        let mut i: usize = 0;
        while i < self.librarians.len()
            invariant
                0 <= i <= self.librarians@.len(),
                forall|j: int| 0 <= j < i ==> #[trigger] self.librarians@[j].id != id,
            decreases self.librarians@.len() - i,
        {
            if self.librarians[i].id == id {
                return true;
            }
            i = i + 1;
        }
        false
    }

    /// The first librarian named `name`.
    pub fn librarian_named(&self, name: &String) -> (r: Option<&Bibliotecario>)
        ensures
            match r {
                Some(l) => self@.librarian_named(name@) == Some(*l),
                None => self@.librarian_named(name@).is_none(),
            },
    {
        let mut i: usize = 0;
        while i < self.librarians.len()
            invariant
                0 <= i <= self.librarians@.len(),
                name_index_from(self.librarians@, name@, 0) == name_index_from(
                    self.librarians@,
                    name@,
                    i as int,
                ),
            decreases self.librarians@.len() - i,
        {
            if self.librarians[i].nome.eq(name) {
                return Some(&self.librarians[i]);
            }
            i = i + 1;
        }
        None
    }

    /// Whether some grant carries the role name `role`.
    pub fn role_exists(&self, role: &String) -> (r: bool)
        ensures
            r == self@.role_exists(role@),
    {
        let mut i: usize = 0;
        while i < self.grants.len()
            invariant
                0 <= i <= self.grants@.len(),
                forall|j: int| 0 <= j < i ==> #[trigger] self.grants@[j].nome@ != role@,
            decreases self.grants@.len() - i,
        {
            if self.grants[i].nome.eq(role) {
                assert(self@.grants[i as int].nome@ == role@);
                return true;
            }
            i = i + 1;
        }
        false
    }

    pub fn has_grant(&self, role: &String, permission: i32) -> (r: bool)
        ensures
            r == self@.has_grant(role@, permission),
    {
        let mut i: usize = 0;
        while i < self.grants.len()
            invariant
                0 <= i <= self.grants@.len(),
                forall|j: int|
                    0 <= j < i ==> !(#[trigger] self.grants@[j].nome@ == role@
                        && self.grants@[j].permissao == permission),
            decreases self.grants@.len() - i,
        {
            if self.grants[i].permissao == permission && self.grants[i].nome.eq(role) {
                return true;
            }
            i = i + 1;
        }
        false
    }

    /// The id of the permission whose action key is `acao`.
    pub fn action_id(&self, acao: &String) -> (r: Option<i32>)
        ensures
            r == self@.action_id(acao@),
    {
        let mut i: usize = 0;
        while i < self.permissions.len()
            invariant
                0 <= i <= self.permissions@.len(),
                action_index_from(self.permissions@, acao@, 0) == action_index_from(
                    self.permissions@,
                    acao@,
                    i as int,
                ),
            decreases self.permissions@.len() - i,
        {
            if self.permissions[i].acao.eq(acao) {
                return Some(self.permissions[i].id);
            }
            i = i + 1;
        }
        None
    }

    pub fn grant_rows(&self) -> (r: Vec<Cargo>)
        ensures
            r@ == self@.grants,
    {
        let mut out: Vec<Cargo> = Vec::new();
        let mut i: usize = 0;
        while i < self.grants.len()
            invariant
                0 <= i <= self.grants@.len(),
                out@ == self.grants@.take(i as int),
            decreases self.grants@.len() - i,
        {
            out.push(self.grants[i].duplicate());
            i = i + 1;
            assert(out@ =~= self.grants@.take(i as int));
        }
        assert(self.grants@.take(i as int) =~= self.grants@);
        out
    }

    pub fn librarian_rows(&self) -> (r: Vec<Bibliotecario>)
        ensures
            r@ == self@.librarians,
    {
        let mut out: Vec<Bibliotecario> = Vec::new();
        let mut i: usize = 0;
        while i < self.librarians.len()
            invariant
                0 <= i <= self.librarians@.len(),
                out@ == self.librarians@.take(i as int),
            decreases self.librarians@.len() - i,
        {
            out.push(self.librarians[i].duplicate());
            i = i + 1;
            assert(out@ =~= self.librarians@.take(i as int));
        }
        assert(self.librarians@.take(i as int) =~= self.librarians@);
        out
    }

    pub fn permission_rows(&self) -> (r: Vec<Permissao>)
        ensures
            r@ == self@.permissions,
    {
        let mut out: Vec<Permissao> = Vec::new();
        let mut i: usize = 0;
        while i < self.permissions.len()
            invariant
                0 <= i <= self.permissions@.len(),
                out@ == self.permissions@.take(i as int),
            decreases self.permissions@.len() - i,
        {
            out.push(self.permissions[i].duplicate());
            i = i + 1;
            assert(out@ =~= self.permissions@.take(i as int));
        }
        assert(self.permissions@.take(i as int) =~= self.permissions@);
        out
    }

    /// The permission ids granted to `role`, in the order of the grants.
    pub fn role_permission_ids(&self, role: &String) -> (r: Vec<i32>)
        ensures
            r@ == role_permission_ids(self@.grants, role@),
    {
        let mut out: Vec<i32> = Vec::new();
        let mut i: usize = 0;
        while i < self.grants.len()
            invariant
                0 <= i <= self.grants@.len(),
                out@ == role_permission_ids(self.grants@.take(i as int), role@),
            decreases self.grants@.len() - i,
        {
            assert(self.grants@.take(i + 1).drop_last() =~= self.grants@.take(i as int));
            if self.grants[i].nome.eq(role) {
                out.push(self.grants[i].permissao);
            }
            i = i + 1;
        }
        assert(self.grants@.take(i as int) =~= self.grants@);
        out
    }

    /// The permissions, in table order, granted to `role`.
    pub fn granted_permissions(&self, role: &String) -> (r: Vec<Permissao>)
        ensures
            r@ == granted_permissions(self@.permissions, self@.grants, role@),
    {
        let mut out: Vec<Permissao> = Vec::new();
        let mut i: usize = 0;
        while i < self.permissions.len()
            invariant
                0 <= i <= self.permissions@.len(),
                out@ == granted_permissions(
                    self.permissions@.take(i as int),
                    self.grants@,
                    role@,
                ),
            decreases self.permissions@.len() - i,
        {
            assert(self.permissions@.take(i + 1).drop_last() =~= self.permissions@.take(
                i as int,
            ));
            if self.has_grant(role, self.permissions[i].id) {
                out.push(self.permissions[i].duplicate());
            }
            i = i + 1;
        }
        assert(self.permissions@.take(i as int) =~= self.permissions@);
        out
    }

    /// Stores a new librarian under the next id and returns that id;
    /// `None`, with nothing changed, once the ids are used up.
    pub fn insert_librarian(&mut self, nome: String, password: String, cargo: Option<String>) -> (r:
        Option<i32>)
        requires
            old(self)@.wf(),
        ensures
            final(self)@.wf(),
            old(self)@.next_id < i32::MAX ==> r == Some(old(self)@.next_id as i32)
                && final(self)@ == old(self)@.with_librarian(nome, password, cargo),
            old(self)@.next_id == i32::MAX ==> r.is_none() && final(self)@ == old(self)@,
    {
        if self.next_id == i32::MAX {
            return None;
        }
        let id = self.next_id;
        self.librarians.push(Bibliotecario { id, nome, password, cargo });
        self.next_id = id + 1;
        Some(id)
    }

    /// Removes the librarians with id `id`.
    pub fn remove_librarian(&mut self, id: i32)
        requires
            old(self)@.wf(),
        ensures
            final(self)@ == old(self)@.without_librarian(id),
            final(self)@.wf(),
    {
        let mut out: Vec<Bibliotecario> = Vec::new();
        let n = self.librarians.len();
        let mut i: usize = 0;
        while i < n
            invariant
                n == self.librarians@.len(),
                0 <= i <= n,
                out@ == without_librarian(self.librarians@.take(i as int), id),
            decreases n - i,
        {
            assert(self.librarians@.take(i + 1).drop_last() =~= self.librarians@.take(i as int));
            if self.librarians[i].id != id {
                out.push(self.librarians[i].duplicate());
            }
            i = i + 1;
        }
        assert(self.librarians@.take(i as int) =~= self.librarians@);
        proof {
            lemma_without_librarian(self.librarians@, id);
        }
        self.librarians = out;
    }

    /// Adds the grant of `permission` to `role`.
    pub fn push_grant(&mut self, role: String, permission: i32)
        ensures
            final(self)@ == old(self)@.with_grant(role, permission),
    {
        self.grants.push(Cargo { nome: role, permissao: permission });
    }

    /// Removes the grants of `role`, leaving the librarians as they are.
    pub fn remove_role_grants(&mut self, role: &String)
        ensures
            final(self)@ == (Tables { grants: without_role(old(self)@.grants, role@), ..old(self)@ }),
    {
        let mut out: Vec<Cargo> = Vec::new();
        let n = self.grants.len();
        let mut i: usize = 0;
        while i < n
            invariant
                n == self.grants@.len(),
                0 <= i <= n,
                out@ == without_role(self.grants@.take(i as int), role@),
            decreases n - i,
        {
            assert(self.grants@.take(i + 1).drop_last() =~= self.grants@.take(i as int));
            if !self.grants[i].nome.eq(role) {
                out.push(self.grants[i].duplicate());
            }
            i = i + 1;
        }
        assert(self.grants@.take(i as int) =~= self.grants@);
        self.grants = out;
    }

    /// Deletes `role`: its grants go, and its librarians lose it.
    pub fn remove_role(&mut self, role: &String)
        requires
            old(self)@.wf(),
        ensures
            final(self)@ == old(self)@.without_role(role@),
            final(self)@.wf(),
    {
        self.remove_role_grants(role);
        let mut out: Vec<Bibliotecario> = Vec::new();
        let n = self.librarians.len();
        let mut i: usize = 0;
        while i < n
            invariant
                n == self.librarians@.len(),
                0 <= i <= n,
                out@ =~= role_cleared(self.librarians@.take(i as int), role@),
            decreases n - i,
        {
            let l = &self.librarians[i];
            let keep = match &l.cargo {
                Some(r) => !r.eq(role),
                None => true,
            };
            let cargo = if keep {
                clone_opt_string(&l.cargo)
            } else {
                None
            };
            out.push(Bibliotecario { id: l.id, nome: l.nome.clone(), password: l.password.clone(), cargo });
            i = i + 1;
            assert(out@ =~= role_cleared(self.librarians@.take(i as int), role@));
        }
        assert(self.librarians@.take(i as int) =~= self.librarians@);
        self.librarians = out;
        assert(self@.librarians =~= role_cleared(old(self)@.librarians, role@));
    }
}

} // verus!
