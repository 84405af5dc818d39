//! The core of a small read-only HTTP service that lists the rows of a
//! `books` table as a JSON array.
//!
//! Nothing in this crate touches a socket or a database. The service around it
//! performs the awaited work (taking a client from the pool, running the
//! query, writing the response) and reports what happened. Every decision is
//! taken here, in functions whose contracts are verified. The few calls
//! into other crates are marked as trusted where they stand, with what is
//! assumed of them.

pub mod book;
pub mod error;
pub mod handler;
pub mod json;
pub mod reading;
pub mod reply;
pub mod row;
pub mod startup;
