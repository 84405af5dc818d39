//! The errors that the pool and the database report.

use deadpool::managed::PoolError;
use vstd::prelude::*;
use vstd::std_specs::convert::FromSpecImpl;

verus! {

/// `tokio_postgres::Error`: what the database client reports. The service
/// carries such a value along and never looks into it.
#[verifier::external_type_specification]
#[verifier::external_body]
pub struct ExDatabaseError(tokio_postgres::Error);

/// `deadpool::managed::PoolError`: why the pool could not hand out a client.
/// Carried along, never looked into.
#[verifier::external_type_specification]
#[verifier::external_body]
#[verifier::reject_recursive_types(E)]
pub struct ExPoolError<E>(deadpool::managed::PoolError<E>);

/// An error that was reported while a request was served. There are two
/// kinds: the pool's and the database's.
#[derive(Debug)]
pub enum AppError {
    /// The pool could not supply a client: it is exhausted or closed, or the
    /// backend is unreachable or turned the credentials down.
    PoolError(PoolError<tokio_postgres::Error>),
    /// A client was there, but the query failed.
    PgError(tokio_postgres::Error),
}

impl From<PoolError<tokio_postgres::Error>> for AppError {
    fn from(err: PoolError<tokio_postgres::Error>) -> (error: AppError) {
        AppError::PoolError(err)
    }
}

impl FromSpecImpl<PoolError<tokio_postgres::Error>> for AppError {
    open spec fn obeys_from_spec() -> bool {
        true
    }

    open spec fn from_spec(err: PoolError<tokio_postgres::Error>) -> AppError {
        AppError::PoolError(err)
    }
}

impl From<tokio_postgres::Error> for AppError {
    fn from(err: tokio_postgres::Error) -> (error: AppError) {
        AppError::PgError(err)
    }
}

impl FromSpecImpl<tokio_postgres::Error> for AppError {
    open spec fn obeys_from_spec() -> bool {
        true
    }

    open spec fn from_spec(err: tokio_postgres::Error) -> AppError {
        AppError::PgError(err)
    }
}

} // verus!
