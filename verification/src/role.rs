use vstd::prelude::*;

use crate::crypto::new_uuid;
use crate::error::AuthError;
use crate::permission::{perm_string, spec_matches, Permission};
use crate::session::view_opt_string;

verus! {

/// Mathematical model of a role: a named, tenant-scoped set of
/// permissions.
pub ghost struct RoleView {
    pub id: u128,
    pub project_id: u128,
    pub name: Seq<char>,
    pub description: Option<Seq<char>>,
    pub permissions: Seq<(Seq<char>, Seq<char>)>,
    pub created_at: i64,
}

/// A named, tenant-scoped set of permissions assignable to principals.
/// Membership has set semantics: no duplicates.
#[derive(Debug)]
pub struct Role {
    pub id: u128,
    pub project_id: u128,
    pub name: String,
    pub description: Option<String>,
    pub permissions: Vec<Permission>,
    pub created_at: i64,
}

impl View for Role {
    type V = RoleView;

    open spec fn view(&self) -> RoleView {
        RoleView {
            id: self.id,
            project_id: self.project_id,
            name: self.name@,
            description: view_opt_string(self.description),
            permissions: perm_views(self.permissions@),
            created_at: self.created_at,
        }
    }
}


impl Clone for Role {
    /// A clone carries the same model.
    fn clone(&self) -> (r: Role)
        ensures
            r@ == self@,
    {
        let permissions = self.permissions.clone();
        proof {
            assert forall|i: int| 0 <= i < self.permissions@.len() implies permissions@[i]
                == self.permissions@[i] by {
            }
            assert(permissions@ =~= self.permissions@);
        }
        Role {
            id: self.id,
            project_id: self.project_id,
            name: self.name.clone(),
            description: self.description.clone(),
            permissions,
            created_at: self.created_at,
        }
    }
}

/// No permission occurs twice.
pub open spec fn distinct_perms(s: Seq<(Seq<char>, Seq<char>)>) -> bool {
    forall|i: int, j: int| 0 <= i < j < s.len() ==> s[i] != s[j]
}

/// The views of a vector of permissions.
pub open spec fn perm_views(v: Seq<Permission>) -> Seq<(Seq<char>, Seq<char>)> {
    v.map_values(|p: Permission| p@)
}

/// Membership in a sequence extended by one element.
proof fn lemma_push_contains(s: Seq<(Seq<char>, Seq<char>)>, v: (Seq<char>, Seq<char>), x: (Seq<char>, Seq<char>))
    ensures
        s.push(v).contains(x) == (s.contains(x) || x == v),
{
    if s.push(v).contains(x) {
        let j = choose|j: int| 0 <= j < s.push(v).len() && s.push(v)[j] == x;
        if j < s.len() {
            assert(s[j] == x);
        }
    }
    if s.contains(x) {
        let j = choose|j: int| 0 <= j < s.len() && s[j] == x;
        assert(s.push(v)[j] == x);
    }
    if x == v {
        assert(s.push(v)[s.len() as int] == x);
    }
}

/// Whether `perms` already holds a permission with this view.
fn contains_perm(perms: &Vec<Permission>, p: &Permission) -> (r: bool)
    ensures
        r == perm_views(perms@).contains(p@),
{
    let n = perms.len();
    let ghost views = perm_views(perms@);
    let mut i: usize = 0;
    while i < n
        invariant
            n == perms@.len(),
            i <= n,
            views == perm_views(perms@),
            forall|j: int| 0 <= j < i ==> views[j] != p@,
        decreases n - i,
    {
        let q = &perms[i];
        if crate::strutil::str_eq(q.resource.as_str(), p.resource.as_str())
            && crate::strutil::str_eq(q.action.as_str(), p.action.as_str()) {
            proof {
                assert(views[i as int] == p@);
            }
            return true;
        }
        i = i + 1;
    }
    proof {
        if views.contains(p@) {
            let j = choose|j: int| 0 <= j < views.len() && views[j] == p@;
            assert(views[j] != p@);
        }
    }
    false
}

impl Role {
    /// The permission set holds no duplicates.
    pub open spec fn wf(&self) -> bool {
        distinct_perms(self@.permissions)
    }

    /// A fresh role with no permissions yet.
    pub fn new(project_id: u128, name: String, now: i64) -> (r: Role)
        ensures
            r@ == (RoleView {
                id: r@.id,
                project_id,
                name: name@,
                description: None,
                permissions: Seq::empty(),
                created_at: now,
            }),
            r.wf(),
    {
        let r = Role {
            id: new_uuid(),
            project_id,
            name,
            description: None,
            permissions: Vec::new(),
            created_at: now,
        };
        proof {
            assert(r@.permissions =~= Seq::<(Seq<char>, Seq<char>)>::empty());
        }
        r
    }

    /// The same role carrying the given permissions, with duplicates
    /// collapsed: membership equals membership in the input.
    pub fn with_permissions(self, permissions: Vec<Permission>) -> (r: Role)
        ensures
            r.wf(),
            forall|x: (Seq<char>, Seq<char>)| r@.permissions.contains(x)
                == perm_views(permissions@).contains(x),
            r@ == (RoleView { permissions: r@.permissions, ..self@ }),
    {
        let mut out = Role { permissions: Vec::new(), ..self };
        proof {
            assert(out@.permissions =~= Seq::<(Seq<char>, Seq<char>)>::empty());
        }
        let n = permissions.len();
        let ghost input = perm_views(permissions@);
        let mut i: usize = 0;
        while i < n
            invariant
                n == permissions@.len(),
                i <= n,
                input == perm_views(permissions@),
                out.wf(),
                forall|x: (Seq<char>, Seq<char>)| out@.permissions.contains(x)
                    == input.subrange(0, i as int).contains(x),
                out@.id == self@.id,
                out@.project_id == self@.project_id,
                out@.name == self@.name,
                out@.description == self@.description,
                out@.created_at == self@.created_at,
            decreases n - i,
        {
            let ghost before = out@.permissions;
            let p = permissions[i].clone();
            proof {
                assert(p@ == input[i as int]);
            }
            if !contains_perm(&out.permissions, &p) {
                out.permissions.push(p);
                proof {
                    assert(out@.permissions =~= before.push(input[i as int]));
                }
            }
            proof {
                assert forall|x: (Seq<char>, Seq<char>)| out@.permissions.contains(x)
                    == input.subrange(0, i as int + 1).contains(x) by {
                    assert(input.subrange(0, i as int + 1) =~= input.subrange(0, i as int).push(
                        input[i as int],
                    ));
                    lemma_push_contains(input.subrange(0, i as int), input[i as int], x);
                    lemma_push_contains(before, input[i as int], x);
                    if before.contains(input[i as int]) {
                        assert(out@.permissions == before);
                        if x == input[i as int] {
                            assert(before.contains(x));
                        }
                    } else {
                        assert(out@.permissions == before.push(input[i as int]));
                    }
                }
            }
            i = i + 1;
        }
        proof {
            assert(input.subrange(0, n as int) =~= input);
        }
        out
    }

    /// Adds a permission; a duplicate leaves the set as it stands.
    pub fn add_permission(&mut self, permission: Permission)
        requires
            old(self).wf(),
        ensures
            final(self).wf(),
            forall|x: (Seq<char>, Seq<char>)| final(self)@.permissions.contains(x)
                == (old(self)@.permissions.contains(x) || x == permission@),
            final(self)@ == (RoleView { permissions: final(self)@.permissions, ..old(self)@ }),
    {
        let ghost before = self@.permissions;
        if !contains_perm(&self.permissions, &permission) {
            let ghost pv = permission@;
            self.permissions.push(permission);
            proof {
                assert(self@.permissions =~= before.push(pv));
                assert forall|x: (Seq<char>, Seq<char>)| self@.permissions.contains(x)
                    == (before.contains(x) || x == pv) by {
                    if self@.permissions.contains(x) {
                        let j = choose|j: int|
                            0 <= j < self@.permissions.len() && self@.permissions[j] == x;
                        if j < before.len() {
                            assert(before[j] == x);
                        }
                    }
                    if before.contains(x) {
                        let k = choose|k: int| 0 <= k < before.len() && before[k] == x;
                        assert(self@.permissions[k] == x);
                    }
                    if x == pv {
                        assert(self@.permissions.last() == x);
                    }
                }
            }
        }
    }

    /// Removes a permission; absence leaves the set as it stands.
    pub fn remove_permission(&mut self, permission: &Permission)
        requires
            old(self).wf(),
        ensures
            final(self).wf(),
            forall|x: (Seq<char>, Seq<char>)| final(self)@.permissions.contains(x)
                == (old(self)@.permissions.contains(x) && x != permission@),
            final(self)@ == (RoleView { permissions: final(self)@.permissions, ..old(self)@ }),
    {
        let ghost before = self@.permissions;
        let n = self.permissions.len();
        let mut i: usize = 0;
        while i < n && !(crate::strutil::str_eq(
            self.permissions[i].resource.as_str(),
            permission.resource.as_str(),
        ) && crate::strutil::str_eq(self.permissions[i].action.as_str(), permission.action.as_str()))
            invariant
                n == self.permissions@.len(),
                i <= n,
                *self == *old(self),
                before == perm_views(self.permissions@),
                forall|j: int| 0 <= j < i ==> before[j] != permission@,
            decreases n - i,
        {
            proof {
                assert(before[i as int] == (self.permissions@[i as int])@);
            }
            i = i + 1;
        }
        if i < n {
            proof {
                assert(before[i as int] == (self.permissions@[i as int])@);
                assert(before[i as int] == permission@);
            }
            self.permissions.remove(i);
            proof {
                assert(self@.permissions =~= before.subrange(0, i as int) + before.subrange(
                    i as int + 1,
                    before.len() as int,
                ));
                assert forall|x: (Seq<char>, Seq<char>)| self@.permissions.contains(x)
                    == (before.contains(x) && x != permission@) by {
                    let s = self@.permissions;
                    if s.contains(x) {
                        let j = choose|j: int| 0 <= j < s.len() && s[j] == x;
                        if j < i {
                            assert(before[j] == x);
                            assert(before[j] != before[i as int]);
                        } else {
                            assert(before[j + 1] == x);
                            assert(before[i as int] != before[j + 1]);
                        }
                    }
                    if before.contains(x) && x != permission@ {
                        let k = choose|k: int| 0 <= k < before.len() && before[k] == x;
                        if k < i {
                            assert(s[k] == x);
                        } else {
                            assert(k != i);
                            assert(s[k - 1] == x);
                        }
                    }
                }
            }
        } else {
            proof {
                if before.contains(permission@) {
                    let j = choose|j: int| 0 <= j < before.len() && before[j] == permission@;
                    assert(before[j] != permission@);
                }
            }
        }
    }

    /// Whether any single granted permission of this role satisfies the
    /// query: a match on one member is sufficient.
    pub fn has_permission(&self, permission: &Permission) -> (r: bool)
        ensures
            r == exists|i: int| 0 <= i < self.permissions@.len()
                && spec_matches(
                    (#[trigger] self.permissions@[i])@,
                    perm_string(permission@.0, permission@.1),
                ),
    {
        let pattern = permission.to_string();
        any_matches(&self.permissions, pattern.as_str())
    }
}

/// Whether any permission of the set satisfies the query pattern:
/// logical OR across the set.
pub fn any_matches(perms: &Vec<Permission>, pattern: &str) -> (r: bool)
    ensures
        r == exists|i: int| 0 <= i < perms@.len()
            && spec_matches((#[trigger] perms@[i])@, pattern@),
{
    let n = perms.len();
    let mut i: usize = 0;
    while i < n
        invariant
            n == perms@.len(),
            i <= n,
            forall|j: int| 0 <= j < i ==> !spec_matches((#[trigger] perms@[j])@, pattern@),
        decreases n - i,
    {
        if perms[i].matches(pattern) {
            proof {
                assert(spec_matches((perms@[i as int])@, pattern@));
            }
            return true;
        }
        i = i + 1;
    }
    false
}

/// The union of the permission sets of every given role, with set
/// semantics: a permission is effective iff some role grants it.
pub fn effective_permissions(roles: &Vec<Role>) -> (r: Vec<Permission>)
    ensures
        distinct_perms(perm_views(r@)),
        forall|x: (Seq<char>, Seq<char>)| perm_views(r@).contains(x)
            == exists|i: int| 0 <= i < roles@.len()
                && (#[trigger] roles@[i]@.permissions).contains(x),
{
    let n = roles.len();
    let mut out: Vec<Permission> = Vec::new();
    let mut i: usize = 0;
    proof {
        assert(perm_views(out@) =~= Seq::<(Seq<char>, Seq<char>)>::empty());
    }
    while i < n
        invariant
            n == roles@.len(),
            i <= n,
            distinct_perms(perm_views(out@)),
            forall|x: (Seq<char>, Seq<char>)| perm_views(out@).contains(x)
                == exists|ri: int| 0 <= ri < i
                    && (#[trigger] roles@[ri]@.permissions).contains(x),
        decreases n - i,
    {
        let role = &roles[i];
        let m = role.permissions.len();
        let ghost rperms = roles@[i as int]@.permissions;
        let mut k: usize = 0;
        while k < m
            invariant
                0 <= i < n,
                n == roles@.len(),
                m == roles@[i as int].permissions@.len(),
                rperms == roles@[i as int]@.permissions,
                rperms.len() == m,
                k <= m,
                distinct_perms(perm_views(out@)),
                forall|x: (Seq<char>, Seq<char>)| perm_views(out@).contains(x)
                    == ((exists|ri: int| 0 <= ri < i
                        && (#[trigger] roles@[ri]@.permissions).contains(x))
                        || rperms.subrange(0, k as int).contains(x)),
            decreases m - k,
        {
            let ghost before = perm_views(out@);
            let p = roles[i].permissions[k].clone();
            proof {
                assert(p@ == rperms[k as int]);
            }
            if !contains_perm(&out, &p) {
                out.push(p);
                proof {
                    assert(perm_views(out@) =~= before.push(rperms[k as int]));
                }
            }
            proof {
                let after = perm_views(out@);
                assert forall|x: (Seq<char>, Seq<char>)| after.contains(x)
                    == ((exists|ri: int| 0 <= ri < i
                        && (#[trigger] roles@[ri]@.permissions).contains(x))
                        || rperms.subrange(0, k as int + 1).contains(x)) by {
                    assert(rperms.subrange(0, k as int + 1) =~= rperms.subrange(0, k as int).push(
                        rperms[k as int],
                    ));
                    lemma_push_contains(rperms.subrange(0, k as int), rperms[k as int], x);
                    lemma_push_contains(before, rperms[k as int], x);
                    if before.contains(rperms[k as int]) {
                        assert(after == before);
                    } else {
                        assert(after == before.push(rperms[k as int]));
                    }
                }
            }
            k = k + 1;
        }
        proof {
            assert(rperms.subrange(0, m as int) =~= rperms);
            assert forall|x: (Seq<char>, Seq<char>)| perm_views(out@).contains(x)
                == exists|ri: int| 0 <= ri < i + 1
                    && (#[trigger] roles@[ri]@.permissions).contains(x) by {
                if perm_views(out@).contains(x) {
                    if exists|ri: int| 0 <= ri < i
                        && (#[trigger] roles@[ri]@.permissions).contains(x) {
                        let ri = choose|ri: int|
                            0 <= ri < i && (#[trigger] roles@[ri]@.permissions).contains(x);
                        assert(roles@[ri]@.permissions.contains(x));
                    } else {
                        assert(rperms.contains(x));
                        assert(roles@[i as int]@.permissions.contains(x));
                    }
                }
            }
        }
        i = i + 1;
    }
    out
}

/// Some row of the role table carries this id.
pub open spec fn role_id_exists(s: Seq<Role>, id: u128) -> bool {
    exists|i: int| 0 <= i < s.len() && (#[trigger] s[i]@).id == id
}

/// Some row of the role table carries this tenant and name.
pub open spec fn role_name_exists(s: Seq<Role>, project_id: u128, name: Seq<char>) -> bool {
    exists|i: int| 0 <= i < s.len() && (#[trigger] s[i]@).project_id == project_id
        && (s[i]@).name == name
}

/// In-memory role table: the verified stand-in for the relational role
/// repository.
pub struct RoleStore {
    pub roles: Vec<Role>,
}

impl RoleStore {
    /// Role ids are unique, names are unique per tenant, and every row
    /// keeps set semantics for its permissions.
    pub open spec fn wf(&self) -> bool {
        &&& forall|i: int, j: int| 0 <= i < j < self.roles@.len()
            ==> (#[trigger] self.roles@[i]@).id != (#[trigger] self.roles@[j]@).id
        &&& forall|i: int, j: int| 0 <= i < j < self.roles@.len()
            ==> !((#[trigger] self.roles@[i]@).project_id == (#[trigger] self.roles@[j]@).project_id
                && (self.roles@[i]@).name == (self.roles@[j]@).name)
        &&& forall|i: int| 0 <= i < self.roles@.len() ==> (#[trigger] self.roles@[i]).wf()
    }

    /// An empty table.
    pub fn new() -> (r: RoleStore)
        ensures
            r.wf(),
            r.roles@ =~= Seq::<Role>::empty(),
    {
        RoleStore { roles: Vec::new() }
    }

    /// Persists a new role; refuses a duplicate id or a name already
    /// taken in the tenant, as the store layer's constraints would.
    pub fn create(&mut self, role: &Role) -> (r: Result<Role, AuthError>)
        requires
            old(self).wf(),
            role.wf(),
        ensures
            final(self).wf(),
            (r is Ok) == (!role_id_exists(old(self).roles@, role@.id) && !role_name_exists(
                old(self).roles@,
                role@.project_id,
                role@.name,
            )),
            r matches Err(e) ==> e == AuthError::Database && final(self).roles@ == old(self).roles@,
            r matches Ok(created) ==> {
                &&& created@ == role@
                &&& final(self).roles@.len() == old(self).roles@.len() + 1
                &&& final(self).roles@.last()@ == role@
                &&& forall|j: int| 0 <= j < old(self).roles@.len()
                    ==> final(self).roles@[j] == old(self).roles@[j]
            },
    {
        let n = self.roles.len();
        let mut i: usize = 0;
        while i < n
            invariant
                n == self.roles@.len(),
                *self == *old(self),
                old(self).wf(),
                i <= n,
                forall|j: int| 0 <= j < i ==> (#[trigger] self.roles@[j]@).id != role@.id
                    && !((self.roles@[j]@).project_id == role@.project_id
                        && (self.roles@[j]@).name == role@.name),
            decreases n - i,
        {
            let clash = {
                let existing = &self.roles[i];
                existing.id == role.id || (existing.project_id == role.project_id
                    && crate::strutil::str_eq(existing.name.as_str(), role.name.as_str()))
            };
            if clash {
                proof {
                    assert((self.roles@[i as int]@).id == role@.id
                        || ((self.roles@[i as int]@).project_id == role@.project_id
                            && (self.roles@[i as int]@).name == role@.name));
                }
                return Err(AuthError::Database);
            }
            i = i + 1;
        }
        proof {
            if role_id_exists(self.roles@, role@.id) {
                let j = choose|j: int|
                    0 <= j < self.roles@.len() && (#[trigger] self.roles@[j]@).id == role@.id;
            }
            if role_name_exists(self.roles@, role@.project_id, role@.name) {
                let j = choose|j: int| 0 <= j < self.roles@.len()
                    && (#[trigger] self.roles@[j]@).project_id == role@.project_id
                    && (self.roles@[j]@).name == role@.name;
            }
        }
        let row = role.clone();
        let copy = role.clone();
        self.roles.push(row);
        Ok(copy)
    }

    /// Looks a role up by id.
    pub fn find_by_id(&self, id: u128) -> (r: Option<Role>)
        ensures
            (r is Some) == role_id_exists(self.roles@, id),
            r matches Some(role) ==> exists|i: int| 0 <= i < self.roles@.len()
                && (#[trigger] self.roles@[i]@).id == id && role@ == self.roles@[i]@,
    {
        let n = self.roles.len();
        let mut i: usize = 0;
        while i < n && self.roles[i].id != id
            invariant
                n == self.roles@.len(),
                i <= n,
                forall|j: int| 0 <= j < i ==> (#[trigger] self.roles@[j]@).id != id,
            decreases n - i,
        {
            i = i + 1;
        }
        if i < n {
            let role = self.roles[i].clone();
            proof {
                assert((self.roles@[i as int]@).id == id && role@ == self.roles@[i as int]@);
            }
            Some(role)
        } else {
            proof {
                if role_id_exists(self.roles@, id) {
                    let j = choose|j: int|
                        0 <= j < self.roles@.len() && (#[trigger] self.roles@[j]@).id == id;
                }
            }
            None
        }
    }

    /// Looks a role up by tenant and name.
    pub fn find_by_name(&self, project_id: u128, name: &str) -> (r: Option<Role>)
        ensures
            (r is Some) == role_name_exists(self.roles@, project_id, name@),
            r matches Some(role) ==> exists|i: int| 0 <= i < self.roles@.len()
                && (#[trigger] self.roles@[i]@).project_id == project_id
                && (self.roles@[i]@).name == name@ && role@ == self.roles@[i]@,
    {
        let n = self.roles.len();
        let mut i: usize = 0;
        while i < n && !(self.roles[i].project_id == project_id && crate::strutil::str_eq(
            self.roles[i].name.as_str(),
            name,
        ))
            invariant
                n == self.roles@.len(),
                i <= n,
                forall|j: int| 0 <= j < i ==> !((#[trigger] self.roles@[j]@).project_id
                    == project_id && (self.roles@[j]@).name == name@),
            decreases n - i,
        {
            i = i + 1;
        }
        if i < n {
            let role = self.roles[i].clone();
            proof {
                assert((self.roles@[i as int]@).project_id == project_id
                    && (self.roles@[i as int]@).name == name@);
            }
            Some(role)
        } else {
            proof {
                if role_name_exists(self.roles@, project_id, name@) {
                    let j = choose|j: int| 0 <= j < self.roles@.len()
                        && (#[trigger] self.roles@[j]@).project_id == project_id
                        && (self.roles@[j]@).name == name@;
                }
            }
            None
        }
    }

    /// The roles of one tenant, in store order.
    pub fn list(&self, project_id: u128) -> (r: Vec<Role>)
        ensures
            r@.len() <= self.roles@.len(),
            forall|k: int| 0 <= k < r@.len() ==> (#[trigger] r@[k]@).project_id == project_id,
            forall|j: int| 0 <= j < self.roles@.len()
                && (#[trigger] self.roles@[j]@).project_id == project_id
                ==> exists|k: int| 0 <= k < r@.len() && (#[trigger] r@[k])@ == self.roles@[j]@,
    {
        let n = self.roles.len();
        let mut out: Vec<Role> = Vec::new();
        let mut i: usize = 0;
        while i < n
            invariant
                n == self.roles@.len(),
                i <= n,
                out@.len() <= i,
                forall|k: int| 0 <= k < out@.len() ==> (#[trigger] out@[k]@).project_id == project_id,
                forall|j: int| 0 <= j < i && (#[trigger] self.roles@[j]@).project_id == project_id
                    ==> exists|k: int| 0 <= k < out@.len() && (#[trigger] out@[k])@
                        == self.roles@[j]@,
            decreases n - i,
        {
            let ghost prev = out@;
            if self.roles[i].project_id == project_id {
                let row = self.roles[i].clone();
                out.push(row);
            }
            proof {
                assert forall|j: int| 0 <= j < i + 1
                    && (#[trigger] self.roles@[j]@).project_id == project_id
                    implies exists|k: int| 0 <= k < out@.len() && (#[trigger] out@[k])@
                    == self.roles@[j]@ by {
                    if j < i {
                        let k = choose|k: int|
                            0 <= k < prev.len() && (#[trigger] prev[k])@ == self.roles@[j]@;
                        assert(out@[k] == prev[k]);
                    } else {
                        assert((out@[prev.len() as int])@ == self.roles@[j]@);
                    }
                }
            }
            i = i + 1;
        }
        out
    }
}

/// In-memory principal-role assignment edges, with composite uniqueness
/// on (principal id, role id).
pub struct UserRoleStore {
    pub assignments: Vec<(u128, u128)>,
}

impl UserRoleStore {
    /// No edge occurs twice.
    pub open spec fn wf(&self) -> bool {
        forall|i: int, j: int| 0 <= i < j < self.assignments@.len()
            ==> self.assignments@[i] != self.assignments@[j]
    }

    /// An empty edge table.
    pub fn new() -> (r: UserRoleStore)
        ensures
            r.wf(),
            r.assignments@ =~= Seq::<(u128, u128)>::empty(),
    {
        UserRoleStore { assignments: Vec::new() }
    }

    /// Grants a role to a principal; a duplicate grant is a no-op.
    pub fn assign_role(&mut self, user_id: u128, role_id: u128)
        requires
            old(self).wf(),
        ensures
            final(self).wf(),
            forall|e: (u128, u128)| final(self).assignments@.contains(e)
                == (old(self).assignments@.contains(e) || e == (user_id, role_id)),
    {
        let n = self.assignments.len();
        let mut i: usize = 0;
        while i < n && !(self.assignments[i].0 == user_id && self.assignments[i].1 == role_id)
            invariant
                n == self.assignments@.len(),
                *self == *old(self),
                i <= n,
                forall|j: int| 0 <= j < i ==> self.assignments@[j] != (user_id, role_id),
            decreases n - i,
        {
            i = i + 1;
        }
        let ghost before = self.assignments@;
        if i == n {
            proof {
                if before.contains((user_id, role_id)) {
                    let j = choose|j: int| 0 <= j < before.len() && before[j] == (user_id, role_id);
                }
            }
            self.assignments.push((user_id, role_id));
        }
        proof {
            assert forall|e: (u128, u128)| final(self).assignments@.contains(e) == (
                before.contains(e) || e == (user_id, role_id)) by {
                let s1 = final(self).assignments@;
                if s1.contains(e) {
                    let j = choose|j: int| 0 <= j < s1.len() && s1[j] == e;
                    if j < before.len() {
                        assert(before[j] == e);
                    }
                }
                if before.contains(e) {
                    let j = choose|j: int| 0 <= j < before.len() && before[j] == e;
                    assert(s1[j] == e);
                }
                if e == (user_id, role_id) && i < n {
                    assert(before[i as int] == e);
                    assert(s1[i as int] == e);
                }
                if e == (user_id, role_id) && i == n {
                    assert(s1.last() == e);
                }
            }
        }
    }

    /// Revokes a role from a principal; absence is a no-op.
    pub fn remove_role(&mut self, user_id: u128, role_id: u128)
        requires
            old(self).wf(),
        ensures
            final(self).wf(),
            forall|e: (u128, u128)| final(self).assignments@.contains(e)
                == (old(self).assignments@.contains(e) && e != (user_id, role_id)),
    {
        let ghost before = self.assignments@;
        let n = self.assignments.len();
        let mut i: usize = 0;
        while i < n && !(self.assignments[i].0 == user_id && self.assignments[i].1 == role_id)
            invariant
                n == self.assignments@.len(),
                *self == *old(self),
                i <= n,
                forall|j: int| 0 <= j < i ==> self.assignments@[j] != (user_id, role_id),
            decreases n - i,
        {
            i = i + 1;
        }
        if i < n {
            proof {
                assert(before[i as int] == (user_id, role_id));
            }
            self.assignments.remove(i);
            proof {
                let s1 = final(self).assignments@;
                assert(s1 =~= before.subrange(0, i as int) + before.subrange(
                    i as int + 1,
                    before.len() as int,
                ));
                assert forall|e: (u128, u128)| s1.contains(e) == (before.contains(e) && e != (
                    user_id,
                    role_id,
                )) by {
                    if s1.contains(e) {
                        let j = choose|j: int| 0 <= j < s1.len() && s1[j] == e;
                        if j < i {
                            assert(before[j] == e);
                            assert(before[j] != before[i as int]);
                        } else {
                            assert(before[j + 1] == e);
                            assert(before[i as int] != before[j + 1]);
                        }
                    }
                    if before.contains(e) && e != (user_id, role_id) {
                        let k = choose|k: int| 0 <= k < before.len() && before[k] == e;
                        if k < i {
                            assert(s1[k] == e);
                        } else {
                            assert(k != i);
                            assert(s1[k - 1] == e);
                        }
                    }
                }
            }
        } else {
            proof {
                if before.contains((user_id, role_id)) {
                    let j = choose|j: int| 0 <= j < before.len() && before[j] == (user_id, role_id);
                }
            }
        }
    }

    /// The roles granted to a principal, resolved against the role
    /// table: every returned role is a stored role assigned to the
    /// principal, and every assigned role that the table still holds is
    /// returned.
    pub fn get_user_roles(&self, roles: &RoleStore, user_id: u128) -> (r: Vec<Role>)
        requires
            roles.wf(),
        ensures
            forall|k: int| 0 <= k < r@.len() ==> self.assignments@.contains(
                (user_id, (#[trigger] r@[k]@).id),
            ) && exists|m: int| 0 <= m < roles.roles@.len() && (#[trigger] roles.roles@[m])@
                == r@[k]@,
            forall|j: int| 0 <= j < self.assignments@.len()
                && (#[trigger] self.assignments@[j]).0 == user_id && role_id_exists(
                roles.roles@,
                self.assignments@[j].1,
            ) ==> exists|k: int| 0 <= k < r@.len() && (#[trigger] r@[k]@).id
                == self.assignments@[j].1,
    {
        let n = self.assignments.len();
        let mut out: Vec<Role> = Vec::new();
        let mut i: usize = 0;
        while i < n
            invariant
                n == self.assignments@.len(),
                i <= n,
                roles.wf(),
                forall|k: int| 0 <= k < out@.len() ==> self.assignments@.contains(
                    (user_id, (#[trigger] out@[k]@).id),
                ) && exists|m: int| 0 <= m < roles.roles@.len() && (#[trigger] roles.roles@[m])@
                    == out@[k]@,
                forall|j: int| 0 <= j < i && (#[trigger] self.assignments@[j]).0 == user_id
                    && role_id_exists(roles.roles@, self.assignments@[j].1)
                    ==> exists|k: int| 0 <= k < out@.len() && (#[trigger] out@[k]@).id
                        == self.assignments@[j].1,
            decreases n - i,
        {
            let ghost prev = out@;
            let edge = self.assignments[i];
            if edge.0 == user_id {
                match roles.find_by_id(edge.1) {
                    Some(role) => {
                        proof {
                            assert(self.assignments@.contains((user_id, edge.1))) by {
                                assert(self.assignments@[i as int] == (user_id, edge.1));
                            }
                        }
                        out.push(role);
                    },
                    None => {},
                }
            }
            proof {
                assert forall|j: int| 0 <= j < i + 1 && (#[trigger] self.assignments@[j]).0
                    == user_id && role_id_exists(roles.roles@, self.assignments@[j].1)
                    implies exists|k: int| 0 <= k < out@.len() && (#[trigger] out@[k]@).id
                    == self.assignments@[j].1 by {
                    if j < i {
                        let k = choose|k: int|
                            0 <= k < prev.len() && (#[trigger] prev[k]@).id
                                == self.assignments@[j].1;
                        assert(out@[k] == prev[k]);
                        assert((out@[k]@).id == self.assignments@[j].1);
                    } else {
                        assert(out@.len() == prev.len() + 1);
                        assert((out@[prev.len() as int]@).id == self.assignments@[j].1);
                    }
                }
            }
            i = i + 1;
        }
        out
    }

    /// Whether the principal holds a role with this name.
    pub fn has_role(&self, roles: &RoleStore, user_id: u128, role_name: &str) -> (r: bool)
        requires
            roles.wf(),
        ensures
            r == exists|j: int, k: int| {
                &&& 0 <= j < self.assignments@.len()
                &&& 0 <= k < roles.roles@.len()
                &&& (#[trigger] self.assignments@[j]) == (user_id, (#[trigger] roles.roles@[k]@).id)
                &&& (roles.roles@[k]@).name == role_name@
            },
    {
        let n = self.assignments.len();
        let mut i: usize = 0;
        while i < n
            invariant
                n == self.assignments@.len(),
                i <= n,
                roles.wf(),
                forall|j: int, k: int| 0 <= j < i && 0 <= k < roles.roles@.len()
                    && (#[trigger] self.assignments@[j]) == (
                    user_id,
                    (#[trigger] roles.roles@[k]@).id,
                ) ==> (roles.roles@[k]@).name != role_name@,
            decreases n - i,
        {
            let edge = self.assignments[i];
            if edge.0 == user_id {
                match roles.find_by_id(edge.1) {
                    Some(role) => {
                        if crate::strutil::str_eq(role.name.as_str(), role_name) {
                            proof {
                                let k = choose|k: int| 0 <= k < roles.roles@.len()
                                    && (#[trigger] roles.roles@[k]@).id == edge.1
                                    && role@ == roles.roles@[k]@;
                                assert(self.assignments@[i as int] == (
                                    user_id,
                                    (roles.roles@[k]@).id,
                                ));
                            }
                            return true;
                        }
                        proof {
                            assert forall|k: int| 0 <= k < roles.roles@.len()
                                && (#[trigger] roles.roles@[k]@).id == edge.1 implies (
                                roles.roles@[k]@).name != role_name@ by {
                                let k0 = choose|k0: int| 0 <= k0 < roles.roles@.len()
                                    && (#[trigger] roles.roles@[k0]@).id == edge.1
                                    && role@ == roles.roles@[k0]@;
                                if k != k0 {
                                    if k < k0 {
                                        assert((roles.roles@[k]@).id != (roles.roles@[k0]@).id);
                                    } else {
                                        assert((roles.roles@[k0]@).id != (roles.roles@[k]@).id);
                                    }
                                }
                            }
                        }
                    },
                    None => {
                        proof {
                            assert forall|k: int| 0 <= k < roles.roles@.len() implies (
                            #[trigger] roles.roles@[k]@).id != edge.1 by {
                                if role_id_exists(roles.roles@, edge.1) {
                                }
                            }
                        }
                    },
                }
            }
            i = i + 1;
        }
        false
    }
}

/// The effective permission set of a principal: the deduplicated union
/// of the permission sets of every role it holds. A permission is
/// effective iff some stored role assigned to the principal grants it.
pub fn effective_permissions_for(
    assignments: &UserRoleStore,
    roles: &RoleStore,
    user_id: u128,
) -> (r: Vec<Permission>)
    requires
        roles.wf(),
    ensures
        distinct_perms(perm_views(r@)),
        forall|x: (Seq<char>, Seq<char>)| perm_views(r@).contains(x) ==> exists|m: int| {
            &&& 0 <= m < roles.roles@.len()
            &&& assignments.assignments@.contains((user_id, (#[trigger] roles.roles@[m]@).id))
            &&& (roles.roles@[m]@).permissions.contains(x)
        },
        forall|j: int, m: int| {
            &&& 0 <= j < assignments.assignments@.len()
            &&& 0 <= m < roles.roles@.len()
            &&& (#[trigger] assignments.assignments@[j]) == (
                user_id,
                (#[trigger] roles.roles@[m]@).id,
            )
        } ==> forall|x: (Seq<char>, Seq<char>)| (roles.roles@[m]@).permissions.contains(x)
            ==> perm_views(r@).contains(x),
{
    let user_roles = assignments.get_user_roles(roles, user_id);
    let r = effective_permissions(&user_roles);
    proof {
        assert forall|x: (Seq<char>, Seq<char>)| perm_views(r@).contains(x) implies exists|m: int| {
            &&& 0 <= m < roles.roles@.len()
            &&& assignments.assignments@.contains((user_id, (#[trigger] roles.roles@[m]@).id))
            &&& (roles.roles@[m]@).permissions.contains(x)
        } by {
            let i = choose|i: int| 0 <= i < user_roles@.len()
                && (#[trigger] user_roles@[i]@.permissions).contains(x);
            let m = choose|m: int| 0 <= m < roles.roles@.len() && (#[trigger] roles.roles@[m])@
                == user_roles@[i]@;
            assert(assignments.assignments@.contains((user_id, (roles.roles@[m]@).id)));
            assert((roles.roles@[m]@).permissions.contains(x));
        }
        assert forall|j: int, m: int| {
            &&& 0 <= j < assignments.assignments@.len()
            &&& 0 <= m < roles.roles@.len()
            &&& (#[trigger] assignments.assignments@[j]) == (
                user_id,
                (#[trigger] roles.roles@[m]@).id,
            )
        } implies forall|x: (Seq<char>, Seq<char>)| (roles.roles@[m]@).permissions.contains(x)
            ==> perm_views(r@).contains(x) by {
            assert((assignments.assignments@[j]).0 == user_id);
            assert(role_id_exists(roles.roles@, assignments.assignments@[j].1)) by {
                assert((roles.roles@[m]@).id == assignments.assignments@[j].1);
            }
            let k = choose|k: int| 0 <= k < user_roles@.len() && (#[trigger] user_roles@[k]@).id
                == assignments.assignments@[j].1;
            let m2 = choose|m2: int| 0 <= m2 < roles.roles@.len() && (#[trigger] roles.roles@[m2])@
                == user_roles@[k]@;
            assert(m2 == m) by {
                if m2 != m {
                    assert((roles.roles@[m2]@).id == (roles.roles@[m]@).id);
                    if m2 < m {
                        assert((roles.roles@[m2]@).id != (roles.roles@[m]@).id);
                    } else {
                        assert((roles.roles@[m]@).id != (roles.roles@[m2]@).id);
                    }
                }
            }
            assert(user_roles@[k]@ == roles.roles@[m]@);
            assert forall|x: (Seq<char>, Seq<char>)| (roles.roles@[m]@).permissions.contains(x)
                implies perm_views(r@).contains(x) by {
                assert((user_roles@[k]@.permissions).contains(x));
            }
        }
    }
    r
}

} // verus!
