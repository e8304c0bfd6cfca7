use rustress::client;
use rustress::files::FileType;
use rustress::stress;
use rustress::stress::{Flow, MsgFormat, NetworkProt};

#[test]
fn client_config_defaults() {
    let config = client::ClientConfig::default();
    assert_eq!(config.server_ip, "127.0.0.1");
    assert_eq!(config.server_port, 8080);
}

#[test]
fn client_keeps_its_config() {
    let config = client::ClientConfig {
        server_ip: String::from("10.0.0.1"),
        server_port: 9000,
    };
    let client = client::Client::new(config);
    assert_eq!(client.config().server_ip, "10.0.0.1");
    assert_eq!(client.config().server_port, 9000);
}

#[test]
fn flow_defaults() {
    let flow = Flow::default();
    assert_eq!(flow.name, "");
    assert_eq!(flow.server_port, 8000);
    assert_eq!(flow.protocol, NetworkProt::Tcp);
    assert_eq!(flow.format, MsgFormat::Json);
}

#[test]
fn stress_client_config_defaults() {
    let config = stress::ClientConfig::default();
    assert_eq!(config.server_ip, "127.0.0.1");
    assert!(config.flows.is_empty());
}

#[test]
fn stress_client_keeps_its_config() {
    let mut config = stress::ClientConfig::default();
    config.flows.insert(String::from("tcp_flow"), Flow::default());
    let client = stress::Client::new(config);
    assert_eq!(client.config().flows.len(), 1);
    assert!(client.config().flows.contains_key("tcp_flow"));
}

#[test]
fn server_config_defaults() {
    let config = stress::ServerConfig::default();
    assert_eq!(config.ip, "127.0.0.1");
    assert_eq!(config.ports, vec![8080, 8081]);
    assert!(config.accepted_protocols.is_empty());
    assert!(config.accepted_formats.is_empty());
}

#[test]
fn file_type_classification() {
    assert_eq!(FileType::from_meta(true, false), FileType::File);
    assert_eq!(FileType::from_meta(true, true), FileType::File);
    assert_eq!(FileType::from_meta(false, true), FileType::Dir);
    assert_eq!(FileType::from_meta(false, false), FileType::SymLink);
}
