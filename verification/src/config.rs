//! The gateway's configuration.
use crate::text::{decimal, join, law_decimal, to_decimal};
use vstd::prelude::*;
use vstd::string::*;

verus! {

/// The configuration file that is written where there is none.
pub const DEFAULT_CONFIG_JSON: &'static str = r#"{
    "AT_CONFIG": {
        "TYPE": "NETWORK",
        "NETWORK": { "HOST": "192.168.8.1", "PORT": 20249, "TIMEOUT": 10 },
        "SERIAL": { "PORT": "COM6", "BAUDRATE": 115200, "TIMEOUT": 10 }
    },
    "WEBSOCKET_CONFIG": {
        "IPV4": { "HOST": "0.0.0.0", "PORT": 8765 }
    },
    "HTTP_CONFIG": {
        "HOST": "0.0.0.0",
        "PORT": 8008
    }
}"#;

/// The whole configuration.
#[derive(Debug, Clone, PartialEq, Eq)]
pub struct Config {
    pub at_config: AtConfig,
    pub websocket_config: WsConfig,
    pub http_config: HttpConfig,
}

/// Where web pages are served.
#[derive(Debug, Clone, PartialEq, Eq)]
pub struct HttpConfig {
    pub host: String,
    pub port: u16,
}

/// How the modem is reached.
#[derive(Debug, PartialEq, Eq)]
pub struct AtConfig {
    pub conn_type: String,
    pub network: NetworkConfig,
    pub serial: SerialConfig,
}

/// A modem on the network.
#[derive(Debug, PartialEq, Eq)]
pub struct NetworkConfig {
    pub host: String,
    pub port: u16,
    pub timeout: u64,
}

/// A modem on a serial port.
#[derive(Debug, PartialEq, Eq)]
pub struct SerialConfig {
    pub port: String,
    pub baudrate: u32,
    pub timeout: u64,
}

/// Where WebSocket clients connect.
#[derive(Debug, Clone, PartialEq, Eq)]
pub struct WsConfig {
    pub ipv4: WsEndpoint,
}

/// An address to listen on.
#[derive(Debug, Clone, PartialEq, Eq)]
pub struct WsEndpoint {
    pub host: String,
    pub port: u16,
}

impl Clone for NetworkConfig {
    fn clone(&self) -> (r: Self)
        ensures
            r == *self,
    {
        NetworkConfig { host: self.host.clone(), port: self.port, timeout: self.timeout }
    }
}

impl Clone for SerialConfig {
    fn clone(&self) -> (r: Self)
        ensures
            r == *self,
    {
        SerialConfig { port: self.port.clone(), baudrate: self.baudrate, timeout: self.timeout }
    }
}

impl Clone for AtConfig {
    fn clone(&self) -> (r: Self)
        ensures
            r == *self,
    {
        AtConfig {
            conn_type: self.conn_type.clone(),
            network: self.network.clone(),
            serial: self.serial.clone(),
        }
    }
}

/// A connection that is not yet open.
#[derive(Debug, PartialEq, Eq)]
pub enum Connection {
    /// Over the network.
    Network(NetworkConfig),
    /// Over a serial port.
    Serial(SerialConfig),
}

/// The address of a host and a port, as text.
pub open spec fn address(host: Seq<char>, port: u16) -> Seq<char> {
    host + ":"@ + decimal(port as nat)
}

/// Writes the address of a host and a port.
fn to_address(host: &str, port: u16) -> (r: String)
    ensures
        r@ == address(host@, port),
{
    let mut out = join(host, ":");
    out.append(to_decimal(port).as_str());
    out
}

impl NetworkConfig {
    /// The modem's address.
    pub fn address(&self) -> (r: String)
        ensures
            r@ == address(self.host@, self.port),
    {
        to_address(self.host.as_str(), self.port)
    }
}

impl WsEndpoint {
    /// The address to listen on.
    pub fn address(&self) -> (r: String)
        ensures
            r@ == address(self.host@, self.port),
    {
        to_address(self.host.as_str(), self.port)
    }
}

impl HttpConfig {
    /// The address to listen on.
    pub fn address(&self) -> (r: String)
        ensures
            r@ == address(self.host@, self.port),
    {
        to_address(self.host.as_str(), self.port)
    }
}

impl AtConfig {
    /// A new connection to the modem: over the network where the configuration
    /// says `NETWORK`, else over the serial port.
    pub fn create_connection(&self) -> (r: Connection)
        ensures
            r == if self.conn_type@ == "NETWORK"@ {
                Connection::Network(self.network)
            } else {
                Connection::Serial(self.serial)
            },
    {
        if self.conn_type == "NETWORK".to_string() {
            Connection::Network(self.network.clone())
        } else {
            Connection::Serial(self.serial.clone())
        }
    }
}

// ---------------------------------------------------------------------------
// Laws
// ---------------------------------------------------------------------------

/// An address is the host, a colon and the port's digits: the last of them is
/// the port's last digit, and those before are the digits of its tenth.
pub proof fn law_address(host: Seq<char>, port: u16)
    ensures
        ({
            let written = address(host, port);
            let last = written[written.len() - 1];
            &&& last as int == 48 + port % 10
            &&& port < 10 ==> written == host + seq![':', last]
            &&& port >= 10 ==> written == address(host, (port / 10) as u16) + seq![last]
        }),
{
    reveal_strlit(":");
    let n = port as nat;
    law_decimal(n / 10, n % 10);
    assert(n == 10 * (n / 10) + n % 10);
    let written = address(host, port);
    let last = written[written.len() - 1];
    assert(decimal(n % 10) == seq![decimal(n % 10)[0]]);
    assert(decimal(n).last() == decimal(n % 10)[0]);
    assert(written.last() == decimal(n).last());
    if port < 10 {
        assert(written == host + seq![':', last]);
    } else {
        assert(written == address(host, (port / 10) as u16) + seq![last]);
    }
}

} // verus!
