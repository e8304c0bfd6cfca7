use vstd::prelude::*;
use vstd::string::StringExecFns;

verus! {

/// Where a single-connection client points: one server address and one port.
/// Loaded from configuration by the surrounding program; absent fields fall
/// back to the defaults below.
pub struct ClientConfig {
    pub server_ip: String,
    pub server_port: u16,
}

impl Default for ClientConfig {
    /// The local host on port 8080.
    fn default() -> (c: ClientConfig)
        ensures
            c.server_ip@ == "127.0.0.1"@,
            c.server_port == 8080,
    {
        ClientConfig { server_ip: String::from_str("127.0.0.1"), server_port: 8080 }
    }
}

/// A client that opens one connection to the configured server. Connecting
/// and writing are the surrounding program's work; the client value itself
/// only carries the configuration it was built with.
pub struct Client {
    config: ClientConfig,
}

impl Client {
    pub closed spec fn spec_config(self) -> ClientConfig {
        self.config
    }

    pub fn new(config: ClientConfig) -> (c: Client)
        ensures
            c.spec_config() == config,
    {
        Client { config }
    }

    pub fn config(&self) -> (c: &ClientConfig)
        ensures
            *c == self.spec_config(),
    {
        &self.config
    }
}

} // verus!
