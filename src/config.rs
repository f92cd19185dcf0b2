//! Start-up configuration: where the server listens and where clients connect.
use vstd::prelude::*;
use vstd::string::StringExecFns;

verus! {

/// The port both sides use unless configured otherwise.
pub const DEFAULT_PORT: u16 = 7777;

#[derive(Debug, Clone)]
pub struct ServerConfig {
    pub host: String,
    pub port: u16,
}

#[derive(Debug, Clone)]
pub struct ClientConfig {
    pub server_host: String,
    pub server_port: u16,
}

#[derive(Debug, Clone)]
pub struct Config {
    pub server: ServerConfig,
    pub client: ClientConfig,
}

/// Whether `c` is the default configuration: both sides on 127.0.0.1, port 7777.
pub open spec fn is_default_config(c: Config) -> bool {
    &&& c.server.host@ == "127.0.0.1"@
    &&& c.server.port == DEFAULT_PORT
    &&& c.client.server_host@ == "127.0.0.1"@
    &&& c.client.server_port == DEFAULT_PORT
}

impl Default for ServerConfig {
    fn default() -> (r: ServerConfig)
        ensures
            r.host@ == "127.0.0.1"@,
            r.port == DEFAULT_PORT,
    {
        ServerConfig { host: <String as StringExecFns>::from_str("127.0.0.1"), port: DEFAULT_PORT }
    }
}

impl Default for ClientConfig {
    fn default() -> (r: ClientConfig)
        ensures
            r.server_host@ == "127.0.0.1"@,
            r.server_port == DEFAULT_PORT,
    {
        ClientConfig {
            server_host: <String as StringExecFns>::from_str("127.0.0.1"),
            server_port: DEFAULT_PORT,
        }
    }
}

impl Default for Config {
    fn default() -> (r: Config)
        ensures
            is_default_config(r),
    {
        Config { server: ServerConfig::default(), client: ClientConfig::default() }
    }
}

impl Config {
    /// The configuration that was loaded, or the default when none could be.
    pub fn load_or_default(loaded: Option<Config>) -> (r: Config)
        ensures
            loaded matches Some(c) ==> r == c,
            loaded is None ==> is_default_config(r),
    {
        match loaded {
            Some(c) => c,
            None => Config::default(),
        }
    }
}

} // verus!
