use vstd::prelude::*;

verus! {

/// A permission token granted to a user, such as `Users::View`.
#[derive(Debug, Clone, Default)]
pub struct UserPermission {
    pub token: String,
}

impl UserPermission {
    pub fn new(token: &str) -> (r: Self)
        ensures
            r.token@ == token@,
    {
        UserPermission { token: token.to_owned() }
    }
}

/// The role a user is created with; each role grants a fixed set of tokens.
#[derive(Debug, Clone, Copy, PartialEq, Eq, Default)]
pub enum UserRole {
    #[default]
    Guest,
    Normal,
    Admin,
}

/// The tokens granted by a role, in the order they are stored.
pub open spec fn role_tokens(role: UserRole) -> Seq<Seq<char>> {
    match role {
        UserRole::Guest => seq![],
        UserRole::Normal => seq!["Users::View"@, "CurrentUser::Manage"@],
        UserRole::Admin => seq!["Users::View"@, "Users::Manage"@],
    }
}

/// The token strings of a list of permissions.
pub open spec fn tokens_of(perms: Seq<UserPermission>) -> Seq<Seq<char>> {
    perms.map_values(|p: UserPermission| p.token@)
}

impl UserRole {
    pub fn permissions(&self) -> (r: Vec<UserPermission>)
        ensures
            tokens_of(r@) == role_tokens(*self),
    {
        let r = match self {
            UserRole::Guest => Vec::new(),
            UserRole::Normal => vec![
                UserPermission::new("Users::View"),
                UserPermission::new("CurrentUser::Manage"),
            ],
            UserRole::Admin => vec![
                UserPermission::new("Users::View"),
                UserPermission::new("Users::Manage"),
            ],
        };
        assert(tokens_of(r@) =~= role_tokens(*self));
        r
    }
}


/// A point in time, as seconds since the Unix epoch and nanoseconds within
/// that second.
#[derive(Debug, Clone, Copy, PartialEq, Eq)]
pub struct Timestamp {
    pub seconds: i64,
    pub nanos: u32,
}

/// A user account as the service hands it out.
#[derive(Debug, Clone)]
pub struct User {
    pub id: i64,
    pub anonymous: bool,
    pub username: String,
    pub created_at: Option<Timestamp>,
    /// Permission tokens; the service hands them out without repeats.
    pub permissions: Vec<String>,
}

/// The views of a list of strings.
pub open spec fn views_of(v: Seq<String>) -> Seq<Seq<char>> {
    v.map_values(|s: String| s@)
}

impl Default for User {
    /// The anonymous guest.
    fn default() -> (r: Self)
        ensures
            r.id == 1,
            r.anonymous,
            r.username@ == "Guest"@,
            r.created_at is None,
            r.permissions@.len() == 0,
    {
        User {
            id: 1,
            anonymous: true,
            username: "Guest".to_owned(),
            created_at: None,
            permissions: Vec::new(),
        }
    }
}

/// The tokens of `s` in order, each kept at its first occurrence.
pub open spec fn distinct_tokens(s: Seq<Seq<char>>) -> Seq<Seq<char>>
    decreases s.len(),
{
    if s.len() == 0 {
        s
    } else {
        let d = distinct_tokens(s.drop_last());
        if d.contains(s.last()) {
            d
        } else {
            d.push(s.last())
        }
    }
}

/// The tokens of `s` are pairwise different.
pub proof fn lemma_distinct_tokens(s: Seq<Seq<char>>)
    ensures
        distinct_tokens(s).no_duplicates(),
        forall|t: Seq<char>| #[trigger] distinct_tokens(s).contains(t) ==> s.contains(t),
    decreases s.len(),
{
    if s.len() > 0 {
        let d = distinct_tokens(s.drop_last());
        lemma_distinct_tokens(s.drop_last());
        assert forall|t: Seq<char>| #[trigger] distinct_tokens(s).contains(t) implies s.contains(t) by {
            if d.contains(t) {
                assert(s.drop_last().contains(t));
                let k = choose|k: int| 0 <= k < s.drop_last().len() && s.drop_last()[k] == t;
                assert(s[k] == t);
            } else {
                assert(t == s.last());
                assert(s[s.len() - 1] == t);
            }
        }
        if !d.contains(s.last()) {
            let r = d.push(s.last());
            assert forall|i: int, j: int| 0 <= i < r.len() && 0 <= j < r.len() && i != j implies r[i] != r[j] by {
                if i < d.len() && j < d.len() {
                } else if i == d.len() {
                    assert(r[j] == d[j]);
                } else {
                    assert(r[i] == d[i]);
                }
            }
        }
    }
}

impl User {
    pub fn is_authenticated(&self) -> (r: bool)
        ensures
            r == !self.anonymous,
    {
        !self.anonymous
    }

    pub fn is_active(&self) -> (r: bool)
        ensures
            r == !self.anonymous,
    {
        !self.anonymous
    }

    pub fn is_anonymous(&self) -> (r: bool)
        ensures
            r == self.anonymous,
    {
        self.anonymous
    }

    /// Whether the user holds the permission `perm`.
    pub fn has(&self, perm: &str) -> (r: bool)
        ensures
            r == views_of(self.permissions@).contains(perm@),
    {
        let wanted = perm.to_owned();
        contains_token(&self.permissions, &wanted)
    }
}

/// A permission row as stored by the service.
#[derive(Debug, Clone)]
pub struct SqlUserPermission {
    pub user_id: i64,
    pub token: String,
}

impl From<SqlUserPermission> for UserPermission {
    fn from(val: SqlUserPermission) -> (r: Self) {
        UserPermission { token: val.token }
    }
}

impl vstd::std_specs::convert::FromSpecImpl<SqlUserPermission> for UserPermission {
    open spec fn obeys_from_spec() -> bool {
        true
    }

    open spec fn from_spec(val: SqlUserPermission) -> Self {
        UserPermission { token: val.token }
    }
}

/// A user row as stored by the service, password hash included.
#[derive(Debug, Clone)]
pub struct SqlUser {
    pub id: i64,
    pub anonymous: bool,
    pub username: String,
    pub password: String,
    pub created_at: Option<Timestamp>,
}

impl SqlUser {
    /// The user without the password hash, with the distinct tokens of
    /// `user_perms` (none when absent).
    pub fn into_user(self, user_perms: Option<Vec<UserPermission>>) -> (r: User)
        ensures
            r.id == self.id,
            r.anonymous == self.anonymous,
            r.username == self.username,
            r.created_at == self.created_at,
            views_of(r.permissions@) == match user_perms {
                Some(p) => distinct_tokens(tokens_of(p@)),
                None => seq![],
            },
            views_of(r.permissions@).no_duplicates(),
    {
        proof {
            if user_perms is Some {
                lemma_distinct_tokens(tokens_of(user_perms->Some_0@));
            }
        }
        let mut permissions: Vec<String> = Vec::new();
        if let Some(perms) = user_perms {
            let ghost all = tokens_of(perms@);
            let n: usize = perms.len();
            let mut rest = perms;
            let mut k: usize = 0;
            proof {
                assert(all.take(0) =~= Seq::<Seq<char>>::empty());
                assert(views_of(permissions@) =~= Seq::<Seq<char>>::empty());
            }
            while rest.len() > 0
                invariant
                    k + rest@.len() == all.len(),
                    all.len() == n,
                    tokens_of(rest@) == all.skip(k as int),
                    views_of(permissions@) == distinct_tokens(all.take(k as int)),
                decreases rest@.len(),
            {
                let ghost before = rest@;
                let p = rest.remove(0);
                proof {
                    assert(all.take(k + 1).drop_last() =~= all.take(k as int));
                    assert(tokens_of(before)[0] == p.token@);
                    assert(all[k as int] == all.skip(k as int)[0]);
                    assert(tokens_of(rest@) =~= tokens_of(before).drop_first());
                    assert(all.skip(k as int).drop_first() =~= all.skip(k + 1));
                }
                if !contains_token(&permissions, &p.token) {
                    let ghost pv = permissions@;
                    permissions.push(p.token);
                    proof {
                        assert(views_of(permissions@) =~= views_of(pv).push(all[k as int]));
                    }
                }
                k += 1;
            }
            proof {
                assert(all.take(k as int) =~= all);
            }
        }
        User {
            id: self.id,
            anonymous: self.anonymous,
            username: self.username,
            created_at: self.created_at,
            permissions,
        }
    }
}

fn contains_token(v: &Vec<String>, token: &String) -> (r: bool)
    ensures
        r == views_of(v@).contains(token@),
{
    let mut i: usize = 0;
    while i < v.len()
        invariant
            i <= v@.len(),
            forall|j: int| 0 <= j < i ==> (#[trigger] v@[j])@ != token@,
        decreases v@.len() - i,
    {
        if v[i] == *token {
            assert(views_of(v@)[i as int] == token@);
            return true;
        }
        i += 1;
    }
    proof {
        if views_of(v@).contains(token@) {
            let k = choose|k: int| 0 <= k < v@.len() && views_of(v@)[k] == token@;
            assert(v@[k]@ == token@);
        }
    }
    false
}

/// Permission lists filed by user identifier, held in a hashbrown map.
#[verifier::external_body]
pub struct PermissionIndex {
    map: hashbrown::HashMap<i64, Vec<UserPermission>>,
}

/// A name for what an index holds: the tokens filed under each user, in
/// the order they were filed.
pub uninterp spec fn index_contents(index: PermissionIndex) -> Map<i64, Seq<Seq<char>>>;

/// The tokens filed under `user_id`; none when it has no entry.
pub open spec fn filed(m: Map<i64, Seq<Seq<char>>>, user_id: i64) -> Seq<Seq<char>> {
    if m.dom().contains(user_id) {
        m[user_id]
    } else {
        seq![]
    }
}

impl PermissionIndex {
    /// Relies on hashbrown::HashMap::with_capacity: a new map is empty.
    #[verifier::external_body]
    fn with_capacity(capacity: usize) -> (r: Self)
        ensures
            index_contents(r).dom() == Set::<i64>::empty(),
    {
        PermissionIndex { map: hashbrown::HashMap::with_capacity(capacity) }
    }

    /// Relies on hashbrown::HashMap::entry and Entry::or_insert: the list
    /// under `user_id`, created empty when missing, gets `perm` at its end;
    /// the other lists stay as they are.
    #[verifier::external_body]
    fn file(&mut self, user_id: i64, perm: UserPermission)
        ensures
            index_contents(*final(self)) == index_contents(*old(self)).insert(
                user_id,
                filed(index_contents(*old(self)), user_id).push(perm.token@),
            ),
    {
        self.map.entry(user_id).or_insert(Vec::new()).push(perm);
    }

    /// Relies on hashbrown::HashMap::get: a copy of the list under
    /// `user_id`, if there is one.
    #[verifier::external_body]
    fn get(&self, user_id: i64) -> (r: Option<Vec<UserPermission>>)
        ensures
            r is Some <==> index_contents(*self).dom().contains(user_id),
            r matches Some(v) ==> tokens_of(v@) == index_contents(*self)[user_id],
    {
        self.map.get(&user_id).cloned()
    }
}

/// The tokens of the rows that belong to `user_id`, in row order.
pub open spec fn row_tokens(rows: Seq<SqlUserPermission>, user_id: i64) -> Seq<Seq<char>>
    decreases rows.len(),
{
    if rows.len() == 0 {
        seq![]
    } else {
        let p = row_tokens(rows.drop_last(), user_id);
        if rows.last().user_id == user_id {
            p.push(rows.last().token@)
        } else {
            p
        }
    }
}

/// Joins user rows with permission rows: each user, in order, with the
/// distinct tokens of the rows that belong to it.
pub fn assemble_users(sql_users: Vec<SqlUser>, rows: Vec<SqlUserPermission>) -> (r: Vec<User>)
    ensures
        r@.len() == sql_users@.len(),
        forall|i: int|
            0 <= i < r@.len() ==> {
                let u = #[trigger] r@[i];
                let s = sql_users@[i];
                &&& u.id == s.id
                &&& u.anonymous == s.anonymous
                &&& u.username == s.username
                &&& u.created_at == s.created_at
                &&& views_of(u.permissions@) == distinct_tokens(row_tokens(rows@, s.id))
                &&& views_of(u.permissions@).no_duplicates()
            },
{
    let mut index = PermissionIndex::with_capacity(sql_users.len());
    let ghost all_rows = rows@;
    let n: usize = rows.len();
    let mut rest = rows;
    let mut k: usize = 0;
    proof {
        assert(all_rows.take(0) =~= Seq::<SqlUserPermission>::empty());
    }
    while rest.len() > 0
        invariant
            k + rest@.len() == all_rows.len(),
            all_rows.len() == n,
            rest@ == all_rows.skip(k as int),
            forall|id: i64| #[trigger] filed(index_contents(index), id) == row_tokens(all_rows.take(k as int), id),
        decreases rest@.len(),
    {
        let row = rest.remove(0);
        proof {
            assert(row == all_rows[k as int]);
            assert(rest@ =~= all_rows.skip(k + 1));
            assert(all_rows.take(k + 1).drop_last() =~= all_rows.take(k as int));
        }
        let ghost before = index_contents(index);
        let user_id = row.user_id;
        index.file(user_id, UserPermission::from(row));
        proof {
            assert forall|id: i64| #[trigger] filed(index_contents(index), id) == row_tokens(all_rows.take(k + 1), id) by {
                assert(filed(before, id) == row_tokens(all_rows.take(k as int), id));
            }
        }
        k += 1;
    }
    proof {
        assert(all_rows.take(k as int) =~= all_rows);
    }
    let ghost all_users = sql_users@;
    let m: usize = sql_users.len();
    let mut users_left = sql_users;
    let mut out: Vec<User> = Vec::new();
    let mut j: usize = 0;
    while users_left.len() > 0
        invariant
            j + users_left@.len() == all_users.len(),
            all_users.len() == m,
            users_left@ == all_users.skip(j as int),
            out@.len() == j,
            forall|id: i64| #[trigger] filed(index_contents(index), id) == row_tokens(all_rows, id),
            forall|i: int|
                0 <= i < j ==> {
                    let u = #[trigger] out@[i];
                    let s = all_users[i];
                    &&& u.id == s.id
                    &&& u.anonymous == s.anonymous
                    &&& u.username == s.username
                    &&& u.created_at == s.created_at
                    &&& views_of(u.permissions@) == distinct_tokens(row_tokens(all_rows, s.id))
                    &&& views_of(u.permissions@).no_duplicates()
                },
        decreases users_left@.len(),
    {
        let sql_user = users_left.remove(0);
        proof {
            assert(sql_user == all_users[j as int]);
            assert(users_left@ =~= all_users.skip(j + 1));
        }
        let perms = index.get(sql_user.id);
        proof {
            let t = row_tokens(all_rows, sql_user.id);
            assert(filed(index_contents(index), sql_user.id) == t);
            if perms is None {
                assert(t =~= Seq::<Seq<char>>::empty());
                assert(distinct_tokens(t) == t);
            }
        }
        let user = sql_user.into_user(perms);
        out.push(user);
        j += 1;
    }
    out
}

} // verus!

