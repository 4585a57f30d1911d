//! How the databases are opened: the size and patience of a connection
//! pool, and the statements that tune each connection.

use vstd::prelude::*;

use crate::text::{decimal, push_decimal};

verus! {

pub const DEFAULT_POOL_SIZE: u32 = 20;

pub const DEFAULT_CONNECTION_TIMEOUT_SECS: u64 = 30;

/// The configuration of a connection pool.
#[derive(Debug, Clone, Copy, PartialEq, Eq, Structural)]
pub struct ConnectionPoolConfig {
    /// The largest number of connections open at a time.
    pub pool_size: u32,
    /// How long to wait for a connection, and for a busy database, in seconds.
    pub connection_timeout_secs: u64,
    /// Whether write-ahead logging is switched on.
    pub enable_wal: bool,
}

/// The statement that sets the busy timeout of a connection, in milliseconds.
pub open spec fn busy_timeout_pragma(connection_timeout_secs: u64) -> Seq<char> {
    "PRAGMA busy_timeout = "@ + decimal(connection_timeout_secs as nat * 1000) + ";"@
}

/// The statements that are run on every connection when it is acquired:
/// foreign keys are enforced, the busy timeout is the connection timeout,
/// and with write-ahead logging the journal mode and the synchronous mode
/// are set.
pub open spec fn pragmas_of(config: ConnectionPoolConfig) -> Seq<Seq<char>> {
    let always = seq![
        "PRAGMA foreign_keys = ON;"@,
        busy_timeout_pragma(config.connection_timeout_secs),
    ];
    if config.enable_wal {
        always.push("PRAGMA journal_mode = WAL; PRAGMA synchronous = NORMAL;"@)
    } else {
        always
    }
}

/// The text of each statement, in their order.
pub open spec fn statement_texts(statements: Seq<String>) -> Seq<Seq<char>> {
    statements.map_values(|statement: String| statement@)
}

impl ConnectionPoolConfig {
    pub fn set_pool_size(&mut self, size: u32)
        ensures
            *final(self) == (ConnectionPoolConfig { pool_size: size, ..*old(self) }),
    {
        self.pool_size = size;
    }

    pub fn set_connection_timeout(&mut self, timeout_secs: u64)
        ensures
            *final(self) == (ConnectionPoolConfig {
                connection_timeout_secs: timeout_secs,
                ..*old(self)
            }),
    {
        self.connection_timeout_secs = timeout_secs;
    }

    /// The statements to run on a connection when it is acquired.
    pub fn on_acquire(&self) -> (statements: Vec<String>)
        ensures
            statement_texts(statements@) == pragmas_of(*self),
    {
        let mut statements: Vec<String> = Vec::new();
        statements.push(String::from_str("PRAGMA foreign_keys = ON;"));
        let mut busy_timeout = String::from_str("PRAGMA busy_timeout = ");
        push_decimal(&mut busy_timeout, self.connection_timeout_secs as u128 * 1000);
        let busy_timeout = busy_timeout.concat(";");
        statements.push(busy_timeout);
        if self.enable_wal {
            statements.push(
                String::from_str("PRAGMA journal_mode = WAL; PRAGMA synchronous = NORMAL;"),
            );
        }
        assert(statement_texts(statements@) =~= pragmas_of(*self));
        statements
    }
}

impl Default for ConnectionPoolConfig {
    fn default() -> (config: Self)
        ensures
            config == (ConnectionPoolConfig {
                pool_size: DEFAULT_POOL_SIZE,
                connection_timeout_secs: DEFAULT_CONNECTION_TIMEOUT_SECS,
                enable_wal: false,
            }),
    {
        ConnectionPoolConfig {
            pool_size: DEFAULT_POOL_SIZE,
            connection_timeout_secs: DEFAULT_CONNECTION_TIMEOUT_SECS,
            enable_wal: false,
        }
    }
}

/// Which of the two databases is meant.
#[derive(Debug, Clone, Copy, PartialEq, Eq, Structural)]
pub enum Name {
    Objects,
    ProgressStore,
}

impl Name {
    /// The environment variable that holds the URL of the database.
    pub fn url_env_var(&self) -> (name: &'static str)
        ensures
            name@ == match self {
                Name::Objects => "OBJECTS_DB_URL"@,
                Name::ProgressStore => "PROGRESS_STORE_DB_URL"@,
            },
    {
        match self {
            Name::Objects => "OBJECTS_DB_URL",
            Name::ProgressStore => "PROGRESS_STORE_DB_URL",
        }
    }
}

} // verus!
