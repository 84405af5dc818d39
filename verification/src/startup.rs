//! What the service settles before it serves: where the database is, and the
//! pool of connections to it.

use vstd::prelude::*;

verus! {

/// Name of the environment variable that holds the connection string.
pub const DATABASE_URL_VAR: &'static str = "DATABASE_URL";

/// The most connections that the pool ever holds open at once.
pub const MAX_POOL_SIZE: u16 = 16;

/// The port that the service listens on, on all interfaces.
pub const LISTEN_PORT: u16 = 8080;

/// The one path that the service answers.
pub const BOOKS_PATH: &'static str = "/books";

/// `tokio_postgres::Config`: a parsed connection string.
#[verifier::external_type_specification]
#[verifier::external_body]
pub struct ExConfig(tokio_postgres::Config);

/// `deadpool_postgres::Manager`: opens and recycles the connections of a pool.
#[verifier::external_type_specification]
#[verifier::external_body]
pub struct ExPostgresManager(deadpool_postgres::Manager);

/// The pool of database connections: a `deadpool_postgres::Pool`, made here
/// and handed to the service, which takes its clients from it.
///
/// Opaque to the verifier, which cannot take the pool's own type: nothing in
/// this library reads the pool, and all that is said of it is the limit that
/// it was made with.
#[verifier::external_body]
pub struct ConnectionPool {
    pub inner: deadpool_postgres::Pool,
}

/// Why the service cannot start.
#[derive(Debug)]
pub enum StartupError {
    /// No connection string was given.
    MissingDatabaseUrl,
    /// The connection string is malformed.
    InvalidDatabaseUrl(tokio_postgres::Error),
}

/// Whether `tokio_postgres` accepts `text` as a connection string, in either
/// of its two forms: a `postgres://` URL or a list of `key=value` pairs.
pub uninterp spec fn connection_string_accepted(text: Seq<char>) -> bool;

/// The configuration that `tokio_postgres` reads out of `text`, where it
/// accepts `text`.
pub uninterp spec fn parsed_config(text: Seq<char>) -> tokio_postgres::Config;

/// The configuration that a manager was made with: the one it opens every
/// connection from.
pub uninterp spec fn manager_config(manager: deadpool_postgres::Manager) -> tokio_postgres::Config;

/// The configuration of the manager that a pool was made with.
pub uninterp spec fn pool_config(pool: ConnectionPool) -> tokio_postgres::Config;

/// The limit that a pool was made with: the most connections it ever opens.
pub uninterp spec fn pool_max_size(pool: ConnectionPool) -> nat;

/// Parses a connection string.
///
/// Trusted, not proved: the body is one call of `tokio_postgres::Config`'s
/// `from_str`. The contract claims that the characters of `text` decide
/// whether the call succeeds and which configuration comes out: the parser
/// keeps no state and reads neither the environment nor the network. (Which
/// texts it takes is fixed when the crate is built: a Unix build also takes,
/// as a host, the path of a socket directory that is not UTF-8.)
#[verifier::external_body]
fn parse_connection_string(text: &str) -> (parsed: Result<
    tokio_postgres::Config,
    tokio_postgres::Error,
>)
    ensures
        parsed is Ok <==> connection_string_accepted(text@),
        parsed matches Ok(config) ==> config == parsed_config(text@),
{
    text.parse::<tokio_postgres::Config>()
}

/// Makes the manager of a pool whose connections are not encrypted.
///
/// Trusted, not proved: the body is one call of
/// `deadpool_postgres::Manager::new` with `tokio_postgres::NoTls`. The
/// contract claims that the manager keeps `config` as it is given, which is
/// what it later connects with. No connection is opened here.
#[verifier::external_body]
fn plaintext_manager(config: tokio_postgres::Config) -> (manager: deadpool_postgres::Manager)
    ensures
        manager_config(manager) == config,
{
    deadpool_postgres::Manager::new(config, tokio_postgres::NoTls)
}

/// Makes an empty pool that opens at most `max_size` connections.
///
/// Trusted, not proved: the body is one call of `deadpool::managed::Pool::new`.
/// The contract claims that the pool keeps `max_size` as its limit, which is
/// what its `status` then reports, and that it keeps `manager` unchanged as
/// the one that opens its connections. No connection is opened here.
#[verifier::external_body]
fn bounded_pool(manager: deadpool_postgres::Manager, max_size: u16) -> (pool: ConnectionPool)
    ensures
        pool_max_size(pool) == max_size,
        pool_config(pool) == manager_config(manager),
{
    ConnectionPool { inner: deadpool_postgres::Pool::new(manager, usize::from(max_size)) }
}

/// What the service needs in order to serve: the pool to take clients from,
/// and where to listen.
pub struct Launch {
    pub pool: ConnectionPool,
    /// The IPv4 address to bind, as four octets.
    pub address: [u8; 4],
    pub port: u16,
}

impl Launch {
    /// The settings of this service: a pool of at most sixteen connections,
    /// and port 8080 on all interfaces.
    pub open spec fn has_service_settings(&self) -> bool {
        &&& pool_max_size(self.pool) == MAX_POOL_SIZE
        &&& self.address@ == seq![0u8, 0u8, 0u8, 0u8]
        &&& self.port == LISTEN_PORT
    }
}

/// Settles the launch once the connection string has been parsed: with a
/// configuration the service can start, on a pool that connects with that
/// configuration; with the parser's error it cannot.
pub fn launch_from_config(parsed: Result<tokio_postgres::Config, tokio_postgres::Error>) -> (result:
    Result<Launch, StartupError>)
    ensures
        result is Ok <==> parsed is Ok,
        result matches Ok(launch) ==> launch.has_service_settings(),
        parsed matches Ok(config) ==> result matches Ok(launch) && pool_config(launch.pool)
            == config,
        parsed matches Err(cause) ==> result matches Err(error) && error
            == StartupError::InvalidDatabaseUrl(cause),
{
    match parsed {
        Ok(config) => {
            let pool = bounded_pool(plaintext_manager(config), MAX_POOL_SIZE);
            Ok(Launch { pool, address: [0, 0, 0, 0], port: LISTEN_PORT })
        },
        Err(cause) => Err(StartupError::InvalidDatabaseUrl(cause)),
    }
}

/// Settles the launch from the connection string that the environment
/// holds, if it holds one. The service can start exactly when there is a
/// connection string and it is well formed; its pool then connects with what
/// that string says. Otherwise there is no `Launch`: no pool, and no address
/// to listen on.
pub fn prepare(database_url: Option<&str>) -> (result: Result<Launch, StartupError>)
    ensures
        result is Ok <==> (database_url matches Some(text) && connection_string_accepted(text@)),
        result matches Ok(launch) ==> launch.has_service_settings(),
        result matches Ok(launch) ==> database_url matches Some(text) && pool_config(launch.pool)
            == parsed_config(text@),
        result matches Err(StartupError::MissingDatabaseUrl) <==> database_url is None,
        result matches Err(StartupError::InvalidDatabaseUrl(_)) <==> (database_url matches Some(
            text,
        ) && !connection_string_accepted(text@)),
{
    match database_url {
        Some(text) => launch_from_config(parse_connection_string(text)),
        None => Err(StartupError::MissingDatabaseUrl),
    }
}

} // verus!
