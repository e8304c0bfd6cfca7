use vstd::prelude::*;
use vstd::string::StringExecFns;
use std::collections::HashMap;

verus! {

/// The transport a flow speaks.
#[derive(Clone, Copy, Debug, PartialEq, Eq, Structural)]
pub enum NetworkProt {
    Tcp,
    Udp,
}

/// How a flow's payload is encoded.
#[derive(Clone, Copy, Debug, PartialEq, Eq, Structural)]
pub enum MsgFormat {
    Json,
    Xml,
}

/// One configured traffic flow: a display name, the server port it targets,
/// and how it talks.
#[derive(Debug)]
pub struct Flow {
    pub name: String,
    pub server_port: u16,
    pub protocol: NetworkProt,
    pub format: MsgFormat,
}

impl Default for Flow {
    /// An unnamed TCP flow speaking JSON to port 8000.
    fn default() -> (f: Flow)
        ensures
            f.name@ == Seq::<char>::empty(),
            f.server_port == 8000,
            f.protocol == NetworkProt::Tcp,
            f.format == MsgFormat::Json,
    {
        Flow {
            name: String::new(),
            server_port: 8000,
            protocol: NetworkProt::Tcp,
            format: MsgFormat::Json,
        }
    }
}

/// A stress client's configuration: the server to target and its named
/// flows.
#[derive(Debug)]
pub struct ClientConfig {
    pub server_ip: String,
    pub flows: HashMap<String, Flow>,
}

impl Default for ClientConfig {
    /// The local host, with no flows configured.
    fn default() -> (c: ClientConfig)
        ensures
            c.server_ip@ == "127.0.0.1"@,
            c.flows@ == Map::<String, Flow>::empty(),
    {
        ClientConfig { server_ip: String::from_str("127.0.0.1"), flows: HashMap::new() }
    }
}

/// A stress client: one connection attempt per configured flow. The
/// connections themselves are the surrounding program's work.
pub struct Client {
    config: ClientConfig,
}

impl Client {
    pub closed spec fn spec_config(self) -> ClientConfig {
        self.config
    }

    pub fn new(config: ClientConfig) -> (c: Client)
        ensures
            c.spec_config() == config,
    {
        Client { config }
    }

    pub fn config(&self) -> (c: &ClientConfig)
        ensures
            *c == self.spec_config(),
    {
        &self.config
    }
}

/// A stress server's configuration: the address to bind, the ports to
/// listen on, and what it accepts.
#[derive(Debug)]
pub struct ServerConfig {
    pub ip: String,
    pub ports: Vec<u16>,
    pub accepted_protocols: Vec<NetworkProt>,
    pub accepted_formats: Vec<MsgFormat>,
}

impl Default for ServerConfig {
    /// The local host on ports 8080 and 8081, accepting nothing until
    /// configured.
    fn default() -> (c: ServerConfig)
        ensures
            c.ip@ == "127.0.0.1"@,
            c.ports@ == seq![8080u16, 8081u16],
            c.accepted_protocols@ == Seq::<NetworkProt>::empty(),
            c.accepted_formats@ == Seq::<MsgFormat>::empty(),
    {
        let mut ports: Vec<u16> = Vec::new();
        ports.push(8080);
        ports.push(8081);
        proof {
            assert(ports@ =~= seq![8080u16, 8081u16]);
        }
        ServerConfig {
            ip: String::from_str("127.0.0.1"),
            ports,
            accepted_protocols: Vec::new(),
            accepted_formats: Vec::new(),
        }
    }
}

} // verus!
