//! The effective server configuration, settled from command-line
//! arguments and the optionally loaded configuration file.
//!
//! Reading and parsing the file itself happens outside the library; the
//! merge rule here is what decides which values win.

use vstd::prelude::*;

use crate::api_access::{ApiAccessConfig, ApiAccessPolicy, ApiKey};
use crate::connection::ServerConfig;

verus! {

/// The command-line arguments that matter to the server.
#[derive(Debug, Clone, PartialEq, Eq)]
pub struct Cli {
    pub listen_on: Option<String>,
    pub config: Option<String>,
}

/// Everything the server is configured with.
#[derive(Debug, Clone, PartialEq, Eq)]
pub struct Config {
    pub api_access: ApiAccessConfig,
    pub server: ServerConfig,
}

impl Default for Config {
    fn default() -> (c: Self)
        ensures
            c.api_access.api_policy == (ApiAccessPolicy {
                restrict_connect: true,
                restrict_host: true,
            }),
            c.api_access.api_keys@ == Seq::<ApiKey>::empty(),
            c.server.listen_on@ == "127.0.0.1:8069"@,
    {
        Config { api_access: ApiAccessConfig::default(), server: ServerConfig::default() }
    }
}

impl Config {
    /// Settles the configuration: the loaded file's contents where one
    /// was read, the defaults where none was, and the command line's
    /// listen address overriding either.
    pub fn from_cli_args(args: &Cli, loaded: Option<Config>) -> (c: Config)
        ensures
            match loaded {
                Some(l) => c.api_access == l.api_access && c.server.listen_on@ == (
                match args.listen_on {
                    Some(s) => s@,
                    None => l.server.listen_on@,
                }),
                None => c.api_access.api_policy == (ApiAccessPolicy {
                    restrict_connect: true,
                    restrict_host: true,
                }) && c.api_access.api_keys@ == Seq::<ApiKey>::empty() && c.server.listen_on@ == (
                match args.listen_on {
                    Some(s) => s@,
                    None => "127.0.0.1:8069"@,
                }),
            },
    {
        let mut config = match loaded {
            Some(l) => l,
            None => Config::default(),
        };
        match &args.listen_on {
            Some(listen_on) => {
                config.server.listen_on = listen_on.clone();
            },
            None => (),
        }
        config
    }
}

} // verus!
