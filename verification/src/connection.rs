//! The process-wide connection manager.
//!
//! One [`ConnectionManager`] is constructed at process start and handed
//! by reference to every component that needs storage access.  The
//! shared pool inside it is created at most once, lazily, with all
//! schema migrations applied before the pool is ever handed out; a pool
//! built by a caller that loses the publication race is discarded
//! without ever becoming the system's connection source.

use crate::error::DatabaseConnectionError;
use crate::user::{UserModel, UserView};
use vstd::prelude::*;

verus! {

/// The fixed cap on concurrent physical connections the pool is opened
/// with; callers beyond it queue rather than fail.
pub const MAX_CONNECTIONS: u32 = 5;

/// State of a connection pool: the rows of the `users` table together
/// with the generators the storage engine draws fresh ids and salts
/// from.
#[verifier::ext_equal]
pub struct PoolView {
    pub users: Seq<UserView>,
    pub next_id: int,
    pub next_salt: u64,
    pub max_connections: int,
}

impl PoolView {
    /// Row-store sanity: ids are positive, below the generator, and
    /// unique.
    pub open spec fn wf(self) -> bool {
        &&& self.max_connections == MAX_CONNECTIONS as int
        &&& 1 <= self.next_id
        &&& forall|i: int|
            0 <= i < self.users.len() ==> 1 <= (#[trigger] self.users[i]).id < self.next_id
        &&& forall|i: int, j: int|
            0 <= i < j < self.users.len() ==> self.users[i].id != self.users[j].id
    }
}

/// The state a pool is born in: no rows, both generators at one.
pub open spec fn spec_fresh_pool() -> PoolView {
    PoolView {
        users: Seq::empty(),
        next_id: 1,
        next_salt: 1,
        max_connections: MAX_CONNECTIONS as int,
    }
}

/// A bounded set of reusable live connections to the storage engine,
/// owning the `users` row store.
pub struct Pool {
    pub users: Vec<UserModel>,
    pub next_id: i64,
    pub next_salt: u64,
    pub max_connections: u32,
}

impl View for Pool {
    type V = PoolView;

    open spec fn view(&self) -> PoolView {
        PoolView {
            users: self.users@.map_values(|u: UserModel| u@),
            next_id: self.next_id as int,
            next_salt: self.next_salt,
            max_connections: self.max_connections as int,
        }
    }
}

impl Pool {
    /// A freshly connected, just-migrated, empty pool.
    pub fn new() -> (r: Self)
        ensures
            r@ == spec_fresh_pool(),
            r@.wf(),
    {
        let r = Pool { users: Vec::new(), next_id: 1, next_salt: 1, max_connections: MAX_CONNECTIONS };
        proof {
            assert(r@.users =~= Seq::<UserView>::empty());
            assert(r@ =~= spec_fresh_pool());
        }
        r
    }
}

/// State of the manager: the published pool, if any, and how many
/// migration runs have taken effect.  The clock is the time source the
/// storage engine stamps new rows with.
#[verifier::ext_equal]
pub struct ManagerView {
    pub connection: Option<PoolView>,
    pub migration_runs: int,
    pub clock: int,
}

impl ManagerView {
    /// A published pool is well formed; before the first publication no
    /// migration has run.
    pub open spec fn wf(self) -> bool {
        match self.connection {
            Some(p) => p.wf(),
            None => self.migration_runs == 0,
        }
    }
}

/// The manager state after one `get_db_connection` call: an existing
/// pool is returned as is; otherwise a fresh pool is created and
/// migrated exactly once, then published.
pub open spec fn spec_acquired(m: ManagerView) -> ManagerView {
    match m.connection {
        Some(_) => m,
        None => ManagerView {
            connection: Some(spec_fresh_pool()),
            migration_runs: m.migration_runs + 1,
            clock: m.clock,
        },
    }
}

/// The pool every caller shares once acquisition has happened.
pub open spec fn spec_acquired_pool(m: ManagerView) -> PoolView {
    match m.connection {
        Some(p) => p,
        None => spec_fresh_pool(),
    }
}

/// The manager state a process starts from.
pub open spec fn spec_new_manager() -> ManagerView {
    ManagerView { connection: None, migration_runs: 0, clock: 0 }
}

/// Owner of the single shared pool, constructed once at process start
/// and passed by reference into every component needing storage access.
pub struct ConnectionManager {
    pub connection: Option<Pool>,
    pub migration_runs: u64,
    pub clock: i64,
}

impl View for ConnectionManager {
    type V = ManagerView;

    open spec fn view(&self) -> ManagerView {
        ManagerView {
            connection: match self.connection {
                Some(p) => Some(p@),
                None => None,
            },
            migration_runs: self.migration_runs as int,
            clock: self.clock as int,
        }
    }
}

impl ConnectionManager {
    /// A manager with no pool yet: nothing has been connected or
    /// migrated.
    pub fn new() -> (r: Self)
        ensures
            r@ == spec_new_manager(),
            r@.wf(),
    {
        let r = ConnectionManager { connection: None, migration_runs: 0, clock: 0 };
        proof {
            assert(r@ =~= spec_new_manager());
        }
        r
    }

    /// Sets the time source new rows are stamped with.
    pub fn set_clock(&mut self, now: i64)
        ensures
            final(self)@ == (ManagerView { clock: now as int, ..old(self)@ }),
            old(self)@.wf() ==> final(self)@.wf(),
    {
        self.clock = now;
        proof {
            assert(self@ =~= (ManagerView { clock: now as int, ..old(self)@ }));
        }
    }

    /// Store-if-absent publication of a candidate pool.  If a pool is
    /// already published the candidate is discarded unused and the
    /// caller is told it lost; otherwise the candidate becomes the
    /// shared pool.
    pub fn publish_pool(&mut self, candidate: Pool) -> (won: bool)
        ensures
            old(self)@.connection is Some ==> !won && final(self)@ == old(self)@,
            old(self)@.connection is None ==> won && final(self)@ == (ManagerView {
                connection: Some(candidate@),
                ..old(self)@
            }),
    {
        if self.connection.is_some() {
            false
        } else {
            self.connection = Some(candidate);
            proof {
                assert(self@ =~= (ManagerView { connection: Some(candidate@), ..old(self)@ }));
            }
            true
        }
    }

    /// How many migration runs have taken effect.
    pub fn migration_runs(&self) -> (r: u64)
        ensures
            r as int == self@.migration_runs,
    {
        self.migration_runs
    }

    /// Whether a pool has been published.
    pub fn has_connection(&self) -> (r: bool)
        ensures
            r == (self@.connection is Some),
    {
        self.connection.is_some()
    }

    /// Whether the pool's id or salt generator is out of values, in
    /// which case no further row may be created.
    pub fn exhausted(&self) -> (r: bool)
        ensures
            r == (spec_acquired_pool(self@).next_id == i64::MAX || spec_acquired_pool(self@).next_salt
                == u64::MAX),
    {
        match &self.connection {
            Some(pool) => pool.next_id == i64::MAX || pool.next_salt == u64::MAX,
            None => false,
        }
    }
}

/// Obtains the shared database connection from the manager, or creates
/// and publishes one: on first use a pool is opened, all pending
/// migrations run against it, and only then is it published.  Every
/// later call returns the published pool untouched, with no further
/// migration run.  The in-process pool model cannot fail to bootstrap,
/// so the result is always `Ok`; the error type is what a driver-backed
/// bootstrap reports.
pub fn get_db_connection(manager: &mut ConnectionManager) -> (r: Result<
    (),
    DatabaseConnectionError,
>)
    requires
        old(manager)@.wf(),
    ensures
        final(manager)@ == spec_acquired(old(manager)@),
        final(manager)@.wf(),
        final(manager)@.connection is Some,
        r is Ok,
{
    if manager.connection.is_some() {
        return Ok(());
    }
    let pool = Pool::new();
    manager.migration_runs = manager.migration_runs + 1;
    let won = manager.publish_pool(pool);
    proof {
        assert(manager@ =~= spec_acquired(old(manager)@));
    }
    Ok(())
}

/// Lazy initialisation is idempotent: acquiring from any state leaves a
/// pool published, acquiring again changes nothing, and the migration
/// counter moves only on the call that actually creates the pool — so
/// any number of acquisitions result in exactly one migration run.
pub proof fn lemma_acquire_idempotent(m: ManagerView)
    ensures
        spec_acquired(spec_acquired(m)) == spec_acquired(m),
        spec_acquired(m).connection is Some,
        m.connection is None ==> spec_acquired(m).migration_runs == m.migration_runs + 1,
        m.connection is Some ==> spec_acquired(m) == m,
{
}

} // verus!
