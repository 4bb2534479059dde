//! Process configuration: the database connection string and the bind
//! address of the webserver. Loading these from the environment or the
//! command line happens outside the library; the library only carries the
//! values.

use vstd::prelude::*;

verus! {

/// Configuration of one server process.
pub struct Config {
    /// Postgres connection string.
    pub pg_url: String,
    /// Bind address for the webserver.
    pub bind: String,
    /// Port for the webserver.
    pub port: u16,
}

impl Config {
    /// Configuration with the default bind address and port.
    pub fn new(pg_url: String) -> (r: Self)
        ensures
            r.pg_url@ == pg_url@,
            r.bind@ == "0.0.0.0"@,
            r.port == 3000,
    {
        Config { pg_url, bind: "0.0.0.0".to_owned(), port: 3000 }
    }
}

} // verus!
