//! Where a database URL leads, and how long a connection is waited for.

use vstd::prelude::*;
use vstd::string::*;
use crate::text::{begins, holds_text, starts_with, contains_text, joined};

verus! {

/// The adapter that a URL asks for, and how it is reached.
#[derive(Debug, Clone, Copy, PartialEq, Eq, Structural)]
pub enum Route {
    /// Postgres, over TLS where `tls` is set.
    Postgres { tls: bool },
    /// SQLite.
    Sqlite,
}

/// Why no adapter could be chosen.
#[derive(Debug, PartialEq, Eq)]
pub enum ConnectError {
    /// The URL names no backend that is supported.
    UnsupportedUrl(String),
}

impl ConnectError {
    /// The message that reports the error.
    pub fn message(&self) -> (text: String)
        ensures
            self matches ConnectError::UnsupportedUrl(url) && text@
                == "unsupported database URL: "@ + url@,
    {
        match self {
            ConnectError::UnsupportedUrl(url) => joined("unsupported database URL: ", url.as_str()),
        }
    }
}

/// The most failed attempts after which a connection is still tried again.
pub const MAX_RETRIES: u32 = 60;

/// Whether the URL names Postgres.
pub open spec fn names_postgres(url: Seq<char>) -> bool {
    starts_with(url, "postgres://"@) || starts_with(url, "postgresql://"@)
}

/// Whether the URL names SQLite.
pub open spec fn names_sqlite(url: Seq<char>) -> bool {
    starts_with(url, "sqlite://"@)
}

/// The route that the URL asks for, if it names a backend.
pub open spec fn route_of(url: Seq<char>) -> Option<Route> {
    if names_postgres(url) {
        Some(Route::Postgres { tls: contains_text(url, "sslmode=require"@) })
    } else if names_sqlite(url) {
        Some(Route::Sqlite)
    } else {
        None
    }
}

/// The adapter that the URL asks for: Postgres for `postgres://` and
/// `postgresql://`, over TLS where the URL holds `sslmode=require`; SQLite
/// for `sqlite://`; anything else is refused with the URL.
pub fn get_db_adapter(url: &str) -> (res: Result<Route, ConnectError>)
    ensures
        match res {
            Ok(route) => route_of(url@) == Some(route),
            Err(ConnectError::UnsupportedUrl(refused)) => route_of(url@) is None && refused@
                == url@,
        },
{
    if begins(url, "postgres://") || begins(url, "postgresql://") {
        Ok(Route::Postgres { tls: holds_text(url, "sslmode=require") })
    } else if begins(url, "sqlite://") {
        Ok(Route::Sqlite)
    } else {
        Err(ConnectError::UnsupportedUrl(url.to_owned()))
    }
}

/// What follows a failed attempt to connect, the `failures` before it
/// counted: `Some` of the new count where the connection is tried again after
/// a second, `None` where the failure is final. The caller waits only where
/// `wait` is set, and gives up after more than sixty failures.
pub fn after_failure(wait: bool, failures: u32) -> (next: Option<u32>)
    ensures
        next == if wait && failures < MAX_RETRIES {
            Some((failures + 1) as u32)
        } else {
            None
        },
{
    if wait && failures < MAX_RETRIES {
        Some(failures + 1)
    } else {
        None
    }
}

} // verus!
