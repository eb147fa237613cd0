//! The user repository: the only component that touches the `users`
//! row store.
//!
//! `create_new`, `get` and `edit` are the whole read/mutation surface
//! for user accounts.  `edit` enforces the authentication policy inside
//! a single atomic state transition — row selection and password
//! verification are one step, so there is no window between a check and
//! a write in which the stored password could change.

use crate::connection::{
    spec_acquired, spec_acquired_pool, ConnectionManager, PoolView,
    get_db_connection,
};
use crate::error::DatabaseError;
use crate::hash::{hash_password, spec_hash, spec_verify, verify_password, lemma_verify_hash,
    lemma_hash_salt_distinct};
use vstd::prelude::*;

verus! {

/// Ghost shape of a stored user row.
#[verifier::ext_equal]
pub struct UserView {
    pub id: int,
    pub username: Seq<char>,
    pub email: Seq<char>,
    pub password: Seq<char>,
    pub created_at: int,
}

/// A full persisted user record.  The password field holds a salted
/// hash, never plaintext; the record as a whole is an internal shape,
/// and only its [`UserResult`] projection is safe to disclose.
#[derive(Debug)]
pub struct UserModel {
    pub id: i64,
    pub username: String,
    pub email: String,
    pub password: String,
    pub created_at: i64,
}

impl View for UserModel {
    type V = UserView;

    open spec fn view(&self) -> UserView {
        UserView {
            id: self.id as int,
            username: self.username@,
            email: self.email@,
            password: self.password@,
            created_at: self.created_at as int,
        }
    }
}

/// Input for creating a user; the plaintext password is consumed once
/// and hashed, never stored.
pub struct UserCreation {
    pub username: String,
    pub password: String,
    pub email: String,
}

/// Partial update: any absent field leaves the corresponding column
/// unchanged.  Changing the password requires `new_password` and a
/// verifying `old_password`; supplying a non-verifying `old_password`
/// prevents the whole update.
pub struct UserUpdate {
    pub username: Option<String>,
    pub email: Option<String>,
    pub old_password: Option<String>,
    pub new_password: Option<String>,
}

/// Ghost shape of an update request.
#[verifier::ext_equal]
pub struct UpdateView {
    pub username: Option<Seq<char>>,
    pub email: Option<Seq<char>>,
    pub old_password: Option<Seq<char>>,
    pub new_password: Option<Seq<char>>,
}

impl View for UserUpdate {
    type V = UpdateView;

    open spec fn view(&self) -> UpdateView {
        UpdateView {
            username: match self.username {
                Some(s) => Some(s@),
                None => None,
            },
            email: match self.email {
                Some(s) => Some(s@),
                None => None,
            },
            old_password: match self.old_password {
                Some(s) => Some(s@),
                None => None,
            },
            new_password: match self.new_password {
                Some(s) => Some(s@),
                None => None,
            },
        }
    }
}

/// The public-safe projection of a user: strictly excludes email and
/// password.
pub struct UserResult {
    pub id: i64,
    pub username: String,
    pub created_at: i64,
}

/// The sequence with the present value, or the fallback when absent.
pub open spec fn opt_or(o: Option<Seq<char>>, d: Seq<char>) -> Seq<char> {
    match o {
        Some(s) => s,
        None => d,
    }
}

/// Whether some row carries the given id.
pub open spec fn spec_has_user(users: Seq<UserView>, id: int) -> bool {
    exists|j: int| 0 <= j < users.len() && users[j].id == id
}

/// The index of the row carrying the given id (unique under `wf`).
pub open spec fn spec_user_at(users: Seq<UserView>, id: int) -> int {
    choose|j: int| 0 <= j < users.len() && users[j].id == id
}

/// Whether the conditional update statement selects the row at all:
/// either no old password was supplied, or the supplied one verifies
/// against the stored hash.
pub open spec fn spec_selected(row: UserView, update: UpdateView) -> bool {
    match update.old_password {
        None => true,
        Some(op) => spec_verify(op, row.password),
    }
}

/// Whether the statement replaces the stored password: a new password
/// is present and the old one verifies.  (Rows in this store always
/// carry a stored hash, so an absent old password never authorises a
/// change.)
pub open spec fn spec_password_changes(row: UserView, update: UpdateView) -> bool {
    &&& update.new_password is Some
    &&& match update.old_password {
        Some(op) => spec_verify(op, row.password),
        None => false,
    }
}

/// The selected row after the update statement: username and email are
/// coalesced with their old values, the password is rehashed under the
/// given salt exactly when the change is authorised, and id and
/// creation time are immutable.
pub open spec fn spec_apply_update(row: UserView, update: UpdateView, salt: u64) -> UserView {
    UserView {
        id: row.id,
        username: opt_or(update.username, row.username),
        email: opt_or(update.email, row.email),
        password: if spec_password_changes(row, update) {
            spec_hash(opt_or(update.new_password, row.password), salt)
        } else {
            row.password
        },
        created_at: row.created_at,
    }
}

impl UserModel {
    /// A field-for-field copy of the record.
    fn duplicate(&self) -> (r: Self)
        ensures
            r@ == self@,
    {
        UserModel {
            id: self.id,
            username: self.username.clone(),
            email: self.email.clone(),
            password: self.password.clone(),
            created_at: self.created_at,
        }
    }

    /// Inserts a new user: stores the username, the email, and a salted
    /// hash of the plaintext password under a freshly drawn salt, and
    /// returns the full stored record with its generated id and
    /// creation timestamp.  Acquires the shared pool first, creating it
    /// on first use.
    pub fn create_new(manager: &mut ConnectionManager, creation: UserCreation) -> (r: Result<
        UserModel,
        DatabaseError,
    >)
        requires
            old(manager)@.wf(),
            spec_acquired_pool(old(manager)@).next_id < i64::MAX,
            spec_acquired_pool(old(manager)@).next_salt < u64::MAX,
        ensures
            final(manager)@.wf(),
            final(manager)@.migration_runs == spec_acquired(old(manager)@).migration_runs,
            final(manager)@.clock == old(manager)@.clock,
            ({
                let p = spec_acquired_pool(old(manager)@);
                let u = UserView {
                    id: p.next_id,
                    username: creation.username@,
                    email: creation.email@,
                    password: spec_hash(creation.password@, p.next_salt),
                    created_at: old(manager)@.clock,
                };
                &&& r matches Ok(nu) && nu@ == u
                &&& final(manager)@.connection == Some(
                    PoolView {
                        users: p.users.push(u),
                        next_id: p.next_id + 1,
                        next_salt: (p.next_salt + 1) as u64,
                        max_connections: p.max_connections,
                    },
                )
            }),
    {
        let _ = get_db_connection(manager);
        if let Some(pool) = &mut manager.connection {
            let hash = hash_password(creation.password.as_str(), pool.next_salt);
            let user = UserModel {
                id: pool.next_id,
                username: creation.username,
                email: creation.email,
                password: hash,
                created_at: manager.clock,
            };
            let record = user.duplicate();
            pool.users.push(user);
            pool.next_id = pool.next_id + 1;
            pool.next_salt = pool.next_salt + 1;
            proof {
                let p = spec_acquired_pool(old(manager)@);
                assert(pool@.users =~= p.users.push(record@));
                assert(manager@.connection == Some(pool@));
            }
            Ok(record)
        } else {
            proof {
                assert(false);
            }
            Err(DatabaseError::DatabaseQuery(String::new()))
        }
    }

    /// Fetches the row with the given primary key; fails with
    /// `ModelNotFound("user")` exactly when no row carries that id.
    /// Acquires the shared pool first, creating it on first use.
    #[verifier::loop_isolation(false)]
    pub fn get(manager: &mut ConnectionManager, id: i64) -> (r: Result<UserModel, DatabaseError>)
        requires
            old(manager)@.wf(),
        ensures
            final(manager)@ == spec_acquired(old(manager)@),
            final(manager)@.wf(),
            ({
                let users = spec_acquired_pool(old(manager)@).users;
                match r {
                    Ok(u) => spec_has_user(users, id as int) && u@ == users[spec_user_at(
                        users,
                        id as int,
                    )],
                    Err(e) => !spec_has_user(users, id as int) && (e matches
                        DatabaseError::ModelNotFound(n) && n@ == "user"@),
                }
            }),
    {
        let _ = get_db_connection(manager);
        let ghost p0 = spec_acquired_pool(old(manager)@);
        proof {
            assert(manager@.connection == Some(p0));
            assert(p0.wf());
        }
        if let Some(pool) = &manager.connection {
            let ghost users = p0.users;
            proof {
                assert(pool@ == p0);
            }
            let n = pool.users.len();
            let mut i: usize = 0;
            while i < n
                invariant
                    i <= n,
                    forall|j: int| 0 <= j < i ==> (#[trigger] users[j]).id != id as int,
                decreases n - i,
            {
                if pool.users[i].id == id {
                    let found = pool.users[i].duplicate();
                    proof {
                        assert(users[i as int] == pool.users[i as int]@);
                        let j = spec_user_at(users, id as int);
                        assert(spec_has_user(users, id as int));
                        assert(0 <= j < users.len() && users[j].id == id as int);
                        if j < i as int {
                            assert(users[j].id != id as int);
                        }
                        if (i as int) < j {
                            assert(users[i as int].id != users[j].id);
                        }
                        assert(j == i as int);
                    }
                    return Ok(found);
                }
                proof {
                    assert(users[i as int] == pool.users[i as int]@);
                }
                i += 1;
            }
            Err(DatabaseError::ModelNotFound("user"))
        } else {
            proof {
                assert(false);
            }
            Err(DatabaseError::DatabaseQuery(String::new()))
        }
    }

    /// Applies the single conditional update statement.  The row is
    /// selected only if the id matches and the supplied old password,
    /// when present, verifies against the stored hash; a selected row
    /// gets username and email coalesced and, exactly when the change
    /// is authorised, a fresh salted hash of the new password.  When no
    /// row is selected — wrong id or failed verification — nothing at
    /// all is touched and the operation reports `ModelNotFound("user")`.
    /// Selection and mutation are one atomic transition: there is no
    /// separate read-then-write window.
    #[verifier::loop_isolation(false)]
    pub fn edit(&self, manager: &mut ConnectionManager, update: UserUpdate) -> (r: Result<
        UserModel,
        DatabaseError,
    >)
        requires
            old(manager)@.wf(),
            spec_acquired_pool(old(manager)@).next_salt < u64::MAX,
        ensures
            final(manager)@.wf(),
            final(manager)@.migration_runs == spec_acquired(old(manager)@).migration_runs,
            final(manager)@.clock == old(manager)@.clock,
            ({
                let p = spec_acquired_pool(old(manager)@);
                let users = p.users;
                let id = self@.id;
                if spec_has_user(users, id) && spec_selected(
                    users[spec_user_at(users, id)],
                    update@,
                ) {
                    let j = spec_user_at(users, id);
                    let newrow = spec_apply_update(users[j], update@, p.next_salt);
                    &&& r matches Ok(u) && u@ == newrow
                    &&& final(manager)@.connection == Some(
                        PoolView {
                            users: users.update(j, newrow),
                            next_id: p.next_id,
                            next_salt: if spec_password_changes(users[j], update@) {
                                (p.next_salt + 1) as u64
                            } else {
                                p.next_salt
                            },
                            max_connections: p.max_connections,
                        },
                    )
                } else {
                    &&& r matches Err(DatabaseError::ModelNotFound(n)) && n@ == "user"@
                    &&& final(manager)@.connection == Some(p)
                }
            }),
    {
        let ghost upd = update@;
        let _ = get_db_connection(manager);
        let ghost p0 = spec_acquired_pool(old(manager)@);
        proof {
            assert(manager@.connection == Some(p0));
            assert(p0.wf());
        }
        if let Some(pool) = &mut manager.connection {
            let ghost users = p0.users;
            proof {
                assert(pool@ == p0);
            }
            let n = pool.users.len();
            let mut i: usize = 0;
            while i < n
                invariant
                    i <= n,
                    pool@ == p0,
                    n == pool.users.len(),
                    forall|j: int| 0 <= j < i ==> (#[trigger] users[j]).id != self@.id,
                decreases n - i,
            {
                if pool.users[i].id == self.id {
                    proof {
                        assert(users[i as int] == pool.users[i as int]@);
                        let j = spec_user_at(users, self@.id);
                        assert(spec_has_user(users, self@.id));
                        assert(0 <= j < users.len() && users[j].id == self@.id);
                        if j < i as int {
                            assert(users[j].id != self@.id);
                        }
                        if (i as int) < j {
                            assert(users[i as int].id != users[j].id);
                        }
                        assert(j == i as int);
                    }
                    let selected: bool;
                    let old_verified: bool;
                    match &update.old_password {
                        None => {
                            selected = true;
                            old_verified = false;
                        },
                        Some(op) => {
                            let v = verify_password(op.as_str(), pool.users[i].password.as_str());
                            selected = v;
                            old_verified = v;
                        },
                    }
                    proof {
                        assert(selected == spec_selected(users[i as int], upd));
                    }
                    if !selected {
                        return Err(DatabaseError::ModelNotFound("user"));
                    }
                    let salt = pool.next_salt;
                    let change_pw = old_verified && update.new_password.is_some();
                    proof {
                        assert(change_pw == spec_password_changes(users[i as int], upd));
                    }
                    let new_password: String;
                    if change_pw {
                        let np = update.new_password.unwrap();
                        new_password = hash_password(np.as_str(), salt);
                    } else {
                        new_password = pool.users[i].password.clone();
                    }
                    let new_row = UserModel {
                        id: pool.users[i].id,
                        username: match update.username {
                            Some(u) => u,
                            None => pool.users[i].username.clone(),
                        },
                        email: match update.email {
                            Some(e) => e,
                            None => pool.users[i].email.clone(),
                        },
                        password: new_password,
                        created_at: pool.users[i].created_at,
                    };
                    proof {
                        assert(new_row@ =~= spec_apply_update(users[i as int], upd, salt));
                    }
                    let record = new_row.duplicate();
                    let ghost ue = pool.users@;
                    let _old_row = pool.users.remove(i);
                    pool.users.insert(i, new_row);
                    if change_pw {
                        pool.next_salt = pool.next_salt + 1;
                    }
                    proof {
                        assert(pool.users@ =~= ue.update(i as int, pool.users@[i as int]));
                        assert(pool.users@[i as int]@ == record@);
                        assert(pool@.users =~= users.update(i as int, record@));
                        assert(manager@.connection == Some(pool@));
                        assert(pool@.wf()) by {
                            assert forall|a: int|
                                0 <= a < pool@.users.len() implies 1 <= (
                            #[trigger] pool@.users[a]).id < pool@.next_id by {
                                if a != i as int {
                                    assert(pool@.users[a] == users[a]);
                                } else {
                                    assert(pool@.users[a].id == users[a].id);
                                }
                            }
                            assert forall|a: int, b: int|
                                0 <= a < b < pool@.users.len() implies pool@.users[a].id
                                != pool@.users[b].id by {
                                assert(pool@.users[a].id == users[a].id);
                                assert(pool@.users[b].id == users[b].id);
                            }
                        }
                        assert(pool@ =~= (PoolView {
                            users: users.update(i as int, record@),
                            next_id: p0.next_id,
                            next_salt: if spec_password_changes(users[i as int], upd) {
                                (p0.next_salt + 1) as u64
                            } else {
                                p0.next_salt
                            },
                            max_connections: p0.max_connections,
                        }));
                    }
                    return Ok(record);
                }
                proof {
                    assert(users[i as int] == pool.users[i as int]@);
                }
                i += 1;
            }
            Err(DatabaseError::ModelNotFound("user"))
        } else {
            proof {
                assert(false);
            }
            Err(DatabaseError::DatabaseQuery(String::new()))
        }
    }


    /// Projects the record to its public-safe shape: keeps id, username
    /// and creation time, and drops email and password.
    pub fn into_result(&self) -> (r: UserResult)
        ensures
            r.id == self.id,
            r.username@ == self@.username,
            r.created_at == self.created_at,
    {
        UserResult {
            id: self.id,
            username: self.username.clone(),
            created_at: self.created_at,
        }
    }
}

/// An id the pool's generator has not yet reached matches no row, so
/// fetching an id that was never created reports the row as missing.
pub proof fn lemma_unallocated_id_absent(p: PoolView, id: int)
    requires
        p.wf(),
        id >= p.next_id,
    ensures
        !spec_has_user(p.users, id),
{
    if spec_has_user(p.users, id) {
        let j = spec_user_at(p.users, id);
        assert(0 <= j < p.users.len() && p.users[j].id == id);
    }
}

/// An update with no password fields always selects the row and never
/// touches the stored password: partial updates bypass password
/// verification entirely, and absent fields leave their columns
/// unchanged.
pub proof fn lemma_partial_update_bypasses_password(row: UserView, update: UpdateView, salt: u64)
    requires
        update.old_password is None,
        update.new_password is None,
    ensures
        spec_selected(row, update),
        !spec_password_changes(row, update),
        spec_apply_update(row, update, salt).password == row.password,
        spec_apply_update(row, update, salt).username == opt_or(update.username, row.username),
        spec_apply_update(row, update, salt).email == opt_or(update.email, row.email),
{
}

/// A supplied old password that fails verification deselects the row:
/// the conditional statement then updates nothing at all, not even the
/// non-password columns.
pub proof fn lemma_wrong_password_deselects(row: UserView, update: UpdateView)
    requires
        update.old_password matches Some(op) && !spec_verify(op, row.password),
    ensures
        !spec_selected(row, update),
{
}

/// An authenticated password change goes through and stores a hash the
/// new plaintext verifies against.
pub proof fn lemma_password_change_verifies(row: UserView, update: UpdateView, salt: u64)
    requires
        update.old_password matches Some(op) && spec_verify(op, row.password),
        update.new_password is Some,
    ensures
        spec_selected(row, update),
        spec_password_changes(row, update),
        spec_verify(
            opt_or(update.new_password, row.password),
            spec_apply_update(row, update, salt).password,
        ),
{
    lemma_verify_hash(opt_or(update.new_password, row.password), salt);
}

/// Two creations store distinct password values even from identical
/// plaintexts: each draws the next salt, and hashes under distinct
/// salts are distinct.
pub proof fn lemma_consecutive_creates_distinct(plain: Seq<char>, salt: u64)
    requires
        salt < u64::MAX,
    ensures
        spec_hash(plain, salt) != spec_hash(plain, (salt + 1) as u64),
{
    lemma_hash_salt_distinct(plain, salt, (salt + 1) as u64);
}

} // verus!

