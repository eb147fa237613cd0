//! Typed failure kinds for connection setup and for data operations.
//!
//! The two layers are never conflated: a [`DatabaseConnectionError`]
//! describes a failure to bootstrap the shared pool, while a
//! [`DatabaseError`] describes the outcome of a repository operation
//! (and may wrap a connection failure when that is the cause).  The
//! kinds carry enough structure for an outer boundary to map each one
//! to a protocol-level outcome; that mapping itself lives outside this
//! crate.

use vstd::prelude::*;
use vstd::string::StringExecFns;

verus! {

/// Failure establishing or preparing the shared connection pool.
#[derive(Debug, PartialEq, Eq)]
pub enum DatabaseConnectionError {
    /// The driver could not open the pool (malformed connection string
    /// or unreachable server); carries the driver's message.
    ConnectionError(String),
    /// The schema migrations failed to apply; carries the migrator's
    /// message.  A pool in this state is never published.
    MigrateError(String),
}

/// Failure of a repository operation.
#[derive(Debug, PartialEq, Eq)]
pub enum DatabaseError {
    /// An underlying storage failure not otherwise classified; carries
    /// the driver's message.
    DatabaseQuery(String),
    /// The operation could not obtain a connection.
    DatabaseConnectionError(DatabaseConnectionError),
    /// No row of the named entity existed or satisfied the operation's
    /// predicate.
    ModelNotFound(&'static str),
}

/// The text a connection failure prints as: the carried message.
pub open spec fn spec_connection_message(e: DatabaseConnectionError) -> Seq<char> {
    match e {
        DatabaseConnectionError::ConnectionError(m) => m@,
        DatabaseConnectionError::MigrateError(m) => m@,
    }
}

/// The text a data failure prints as: the carried message, or the
/// not-found sentence naming the entity.
pub open spec fn spec_message(e: DatabaseError) -> Seq<char> {
    match e {
        DatabaseError::DatabaseQuery(m) => m@,
        DatabaseError::DatabaseConnectionError(inner) => spec_connection_message(inner),
        DatabaseError::ModelNotFound(n) => "No "@ + n@ + " found with that query."@,
    }
}

impl DatabaseConnectionError {
    /// The human-readable message of this failure.
    pub fn message(&self) -> (r: String)
        ensures
            r@ == spec_connection_message(*self),
    {
        match self {
            DatabaseConnectionError::ConnectionError(m) => m.clone(),
            DatabaseConnectionError::MigrateError(m) => m.clone(),
        }
    }
}

impl DatabaseError {
    /// The human-readable message of this failure, as the boundary
    /// prints it.
    pub fn message(&self) -> (r: String)
        ensures
            r@ == spec_message(*self),
    {
        match self {
            DatabaseError::DatabaseQuery(m) => m.clone(),
            DatabaseError::DatabaseConnectionError(inner) => inner.message(),
            DatabaseError::ModelNotFound(n) => {
                let mut s = String::from_str("No ");
                s.append(n);
                s.append(" found with that query.");
                proof {
                    assert(s@ =~= spec_message(*self));
                }
                s
            },
        }
    }
}

} // verus!
