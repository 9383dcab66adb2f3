//! The role store: the table that binds each user to the role they own.

use vstd::prelude::*;

verus! {

/// Why a role command could not be carried out.
#[derive(Debug, Clone, Copy, PartialEq, Eq, Structural)]
pub enum RoleError {
    /// The user owns no role.
    NotRegistered,
    /// The owned role is no longer in the guild's role directory.
    RoleMissing,
    /// The color given is not a hex triplet.
    InvalidColor,
}

impl RoleError {
    /// The message shown to the user.
    pub fn message(&self) -> (r: &'static str)
        ensures
            *self == RoleError::NotRegistered ==> r@ == "no user role registered"@,
            *self == RoleError::RoleMissing ==> r@ == "your role no longer exists, please contact an admin"@,
            *self == RoleError::InvalidColor ==> r@ == "invalid color format, please retry"@,
    {
        match self {
            RoleError::NotRegistered => "no user role registered",
            RoleError::RoleMissing => "your role no longer exists, please contact an admin",
            RoleError::InvalidColor => "invalid color format, please retry",
        }
    }
}

/// The role that the first of `rows` with user `u` binds `u` to, if any.
pub open spec fn first_role(rows: Seq<(u64, u64)>, u: u64) -> Option<u64>
    decreases rows.len(),
{
    if rows.len() == 0 {
        None
    } else {
        match first_role(rows.drop_last(), u) {
            Some(r) => Some(r),
            None => if rows.last().0 == u {
                Some(rows.last().1)
            } else {
                None
            },
        }
    }
}

/// Each user with a row, to the role of their first row.
pub open spec fn roles_of(rows: Seq<(u64, u64)>) -> Map<u64, u64> {
    Map::new(|u: u64| first_role(rows, u) is Some, |u: u64| first_role(rows, u)->0)
}

/// The number of rows for user `u`.
pub open spec fn row_count(rows: Seq<(u64, u64)>, u: u64) -> nat
    decreases rows.len(),
{
    if rows.len() == 0 {
        0
    } else {
        row_count(rows.drop_last(), u) + if rows.last().0 == u {
            1nat
        } else {
            0nat
        }
    }
}

/// No two rows name the same user.
pub open spec fn unique_users(rows: Seq<(u64, u64)>) -> bool {
    forall|i: int, j: int| 0 <= i < j < rows.len() ==> rows[i].0 != rows[j].0
}

/// Role associations as rows of `(user, role)`, at most one row per user.
pub struct RoleStore {
    rows: Vec<(u64, u64)>,
}

impl View for RoleStore {
    type V = Map<u64, u64>;

    /// Each user with a row, to the role of that row.
    closed spec fn view(&self) -> Map<u64, u64> {
        roles_of(self.rows@)
    }
}

proof fn lemma_first_role_index(rows: Seq<(u64, u64)>, u: u64)
    ensures
        first_role(rows, u) is Some <==> exists|i: int| 0 <= i < rows.len() && rows[i].0 == u,
        first_role(rows, u) is Some ==> exists|i: int|
            0 <= i < rows.len() && rows[i].0 == u && rows[i].1 == first_role(rows, u)->0 && forall|
                j: int,
            |
                0 <= j < i ==> rows[j].0 != u,
    decreases rows.len(),
{
    if rows.len() > 0 {
        let p = rows.drop_last();
        lemma_first_role_index(p, u);
        if first_role(p, u) is Some {
            let i = choose|i: int|
                0 <= i < p.len() && p[i].0 == u && p[i].1 == first_role(p, u)->0 && forall|j: int|
                    0 <= j < i ==> p[j].0 != u;
            assert(rows[i] == p[i]);
            assert forall|j: int| 0 <= j < i implies rows[j].0 != u by {
                assert(rows[j] == p[j]);
            }
        } else {
            assert forall|i: int| 0 <= i < rows.len() - 1 implies rows[i].0 != u by {
                assert(rows[i] == p[i]);
            }
            if rows.last().0 == u {
                let k = rows.len() - 1;
                assert(0 <= k < rows.len() && rows[k].0 == u && rows[k].1 == first_role(rows, u)->0);
            }
        }
    }
}

proof fn lemma_unique_role(rows: Seq<(u64, u64)>, u: u64, i: int)
    requires
        unique_users(rows),
        0 <= i < rows.len(),
        rows[i].0 == u,
    ensures
        first_role(rows, u) == Some(rows[i].1),
{
    lemma_first_role_index(rows, u);
}

proof fn lemma_no_role(rows: Seq<(u64, u64)>, u: u64)
    requires
        forall|i: int| 0 <= i < rows.len() ==> rows[i].0 != u,
    ensures
        first_role(rows, u) is None,
        row_count(rows, u) == 0,
    decreases rows.len(),
{
    lemma_first_role_index(rows, u);
    if rows.len() > 0 {
        let p = rows.drop_last();
        assert forall|i: int| 0 <= i < p.len() implies p[i].0 != u by {
            assert(p[i] == rows[i]);
        }
        lemma_no_role(p, u);
    }
}

proof fn lemma_row_count_unique(rows: Seq<(u64, u64)>, u: u64)
    requires
        unique_users(rows),
    ensures
        row_count(rows, u) == if first_role(rows, u) is Some {
            1nat
        } else {
            0nat
        },
    decreases rows.len(),
{
    lemma_first_role_index(rows, u);
    if rows.len() > 0 {
        let p = rows.drop_last();
        assert(unique_users(p)) by {
            assert forall|i: int, j: int| 0 <= i < j < p.len() implies p[i].0 != p[j].0 by {
                assert(p[i] == rows[i] && p[j] == rows[j]);
            }
        }
        lemma_row_count_unique(p, u);
        if rows.last().0 == u {
            assert forall|i: int| 0 <= i < p.len() implies p[i].0 != u by {
                assert(p[i] == rows[i]);
            }
            lemma_no_role(p, u);
        }
    }
}

impl RoleStore {
    /// At most one row per user.
    pub closed spec fn wf(&self) -> bool {
        unique_users(self.rows@)
    }

    /// The rows, in the order they were first written.
    pub closed spec fn rows_view(&self) -> Seq<(u64, u64)> {
        self.rows@
    }

    /// An empty store.
    pub fn new() -> (r: RoleStore)
        ensures
            r.wf(),
            r@ == Map::<u64, u64>::empty(),
    {
        let r = RoleStore { rows: Vec::new() };
        assert(r@ =~= Map::<u64, u64>::empty());
        r
    }

    /// A store of the users that `rows` name, each bound to the role of the
    /// first row that names them.
    pub fn from_rows(rows: &Vec<(u64, u64)>) -> (r: RoleStore)
        ensures
            r.wf(),
            r@ == roles_of(rows@),
    {
        let mut store = RoleStore::new();
        let mut i: usize = 0;
        while i < rows.len()
            invariant
                i <= rows@.len(),
                store.wf(),
                store@ == roles_of(rows@.take(i as int)),
            decreases rows@.len() - i,
        {
            let (user, role) = rows[i];
            let ghost seen = rows@.take(i as int);
            let ghost next = rows@.take(i + 1);
            proof {
                assert(next.drop_last() =~= seen);
                assert(next.last() == rows@[i as int]);
            }
            if store.lookup(user).is_err() {
                store.associate(user, role);
                assert(roles_of(next) =~= roles_of(seen).insert(user, role));
            } else {
                assert(roles_of(next) =~= roles_of(seen));
            }
            i = i + 1;
        }
        assert(rows@.take(rows@.len() as int) =~= rows@);
        store
    }

    /// The role that `user` owns, or `NotRegistered` when they own none.
    pub fn lookup(&self, user: u64) -> (r: Result<u64, RoleError>)
        ensures
            r == if self@.contains_key(user) {
                Ok::<u64, RoleError>(self@[user])
            } else {
                Err::<u64, RoleError>(RoleError::NotRegistered)
            },
    {
        let mut i: usize = 0;
        while i < self.rows.len()
            invariant
                i <= self.rows@.len(),
                forall|j: int| 0 <= j < i ==> self.rows@[j].0 != user,
            decreases self.rows@.len() - i,
        {
            if self.rows[i].0 == user {
                proof {
                    lemma_first_role_index(self.rows@, user);
                }
                return Ok(self.rows[i].1);
            }
            i = i + 1;
        }
        proof {
            lemma_no_role(self.rows@, user);
        }
        Err(RoleError::NotRegistered)
    }

    /// Binds `user` to `role`, replacing the role they owned before, which is
    /// returned.
    pub fn associate(&mut self, user: u64, role: u64) -> (prev: Option<u64>)
        requires
            old(self).wf(),
        ensures
            final(self).wf(),
            final(self)@ == old(self)@.insert(user, role),
            prev == if old(self)@.contains_key(user) {
                Some(old(self)@[user])
            } else {
                None::<u64>
            },
    {
        let ghost before = self.rows@;
        let mut i: usize = 0;
        while i < self.rows.len()
            invariant
                self.rows@ == before,
                old(self).rows@ == before,
                unique_users(before),
                i <= before.len(),
                forall|j: int| 0 <= j < i ==> before[j].0 != user,
            decreases before.len() - i,
        {
            if self.rows[i].0 == user {
                let prev = self.rows[i].1;
                self.rows.set(i, (user, role));
                proof {
                    lemma_unique_role(before, user, i as int);
                    let after = self.rows@;
                    assert(unique_users(after)) by {
                        assert forall|a: int, b: int| 0 <= a < b < after.len() implies after[a].0
                            != after[b].0 by {
                            assert(after[a].0 == before[a].0 && after[b].0 == before[b].0);
                        }
                    }
                    let expected = roles_of(before).insert(user, role);
                    assert forall|w: u64| #[trigger] first_role(after, w) == if expected.contains_key(w) {
                        Some(expected[w])
                    } else {
                        None::<u64>
                    } by {
                        lemma_first_role_index(before, w);
                        if w == user {
                            lemma_unique_role(after, user, i as int);
                        } else if first_role(before, w) is Some {
                            let k = choose|k: int|
                                0 <= k < before.len() && before[k].0 == w && before[k].1 == first_role(
                                    before,
                                    w,
                                )->0 && forall|j: int| 0 <= j < k ==> before[j].0 != w;
                            assert(after[k] == before[k]);
                            lemma_unique_role(after, w, k);
                        } else {
                            assert forall|k: int| 0 <= k < after.len() implies after[k].0 != w by {
                                if k != i {
                                    assert(after[k] == before[k]);
                                }
                            }
                            lemma_no_role(after, w);
                        }
                    }
                    assert(roles_of(after) =~= roles_of(before).insert(user, role));
                }
                return Some(prev);
            }
            i = i + 1;
        }
        self.rows.push((user, role));
        proof {
            lemma_no_role(before, user);
            let after = self.rows@;
            assert(after.drop_last() =~= before);
            assert(unique_users(after)) by {
                assert forall|a: int, b: int| 0 <= a < b < after.len() implies after[a].0
                    != after[b].0 by {
                    if b < before.len() {
                        assert(after[a] == before[a] && after[b] == before[b]);
                    } else {
                        assert(after[a] == before[a]);
                    }
                }
            }
            assert(roles_of(after) =~= roles_of(before).insert(user, role));
        }
        None
    }
}

/// Binding a user to a role and then looking the user up gives that role.
pub proof fn lemma_lookup_after_associate(before: &RoleStore, after: &RoleStore, u: u64, r: u64)
    requires
        after@ == before@.insert(u, r),
    ensures
        after@.contains_key(u),
        after@[u] == r,
{
}

/// However many times a user is bound to a role, the store keeps exactly one
/// row for them, and it holds the latest role.
pub proof fn lemma_one_row_per_user(before: &RoleStore, mid: &RoleStore, after: &RoleStore, u: u64, r1: u64, r2: u64)
    requires
        mid@ == before@.insert(u, r1),
        after@ == mid@.insert(u, r2),
        after.wf(),
    ensures
        after@.contains_key(u),
        after@[u] == r2,
        row_count(after.rows_view(), u) == 1,
{
    assert(after@.contains_key(u));
    assert(first_role(after.rows@, u) is Some);
    lemma_row_count_unique(after.rows@, u);
}

/// A well-formed store never holds two rows for one user.
pub proof fn lemma_at_most_one_row(s: &RoleStore, u: u64)
    requires
        s.wf(),
    ensures
        row_count(s.rows_view(), u) == if s@.contains_key(u) {
            1nat
        } else {
            0nat
        },
{
    lemma_row_count_unique(s.rows@, u);
}

} // verus!
