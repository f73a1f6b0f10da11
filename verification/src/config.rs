//! Service configuration: each field falls back to a fixed default when the
//! environment does not supply it. Reading the environment itself happens at
//! the boundary; the merge with the defaults is decided here.

use vstd::prelude::*;

verus! {

use vstd::string::StringExecFns;

/// Runtime configuration of the service.
pub struct Config {
    pub database_url: String,
    pub port: u16,
    pub log_level: String,
}

/// The connection string used when the environment supplies none.
pub fn default_database_url() -> (r: String)
    ensures
        r@ == "postgresql://localhost/ow2stats"@,
{
    String::from_str("postgresql://localhost/ow2stats")
}

/// The listen port used when the environment supplies none.
pub fn default_port() -> (r: u16)
    ensures
        r == 3000,
{
    3000
}

/// The log level used when the environment supplies none.
pub fn default_log_level() -> (r: String)
    ensures
        r@ == "info"@,
{
    String::from_str("info")
}

impl Clone for Config {
    fn clone(&self) -> (res: Self)
        ensures
            res == *self,
    {
        Config {
            database_url: self.database_url.clone(),
            port: self.port,
            log_level: self.log_level.clone(),
        }
    }
}

impl Default for Config {
    /// The configuration with every field at its default.
    fn default() -> (r: Self)
        ensures
            r.database_url@ == "postgresql://localhost/ow2stats"@,
            r.port == 3000,
            r.log_level@ == "info"@,
    {
        Config {
            database_url: default_database_url(),
            port: default_port(),
            log_level: default_log_level(),
        }
    }
}

impl Config {
    /// Merge what the environment supplied with the defaults: every present
    /// value is taken as given, every absent one falls back.
    pub fn from_parts(
        database_url: Option<String>,
        port: Option<u16>,
        log_level: Option<String>,
    ) -> (r: Config)
        ensures
            r.database_url@ == (match database_url {
                Some(u) => u@,
                None => "postgresql://localhost/ow2stats"@,
            }),
            r.port == (match port {
                Some(p) => p,
                None => 3000u16,
            }),
            r.log_level@ == (match log_level {
                Some(l) => l@,
                None => "info"@,
            }),
    {
        Config {
            database_url: match database_url {
                Some(u) => u,
                None => default_database_url(),
            },
            port: match port {
                Some(p) => p,
                None => default_port(),
            },
            log_level: match log_level {
                Some(l) => l,
                None => default_log_level(),
            },
        }
    }
}

} // verus!
