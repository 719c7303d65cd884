//! Configuration of the server.

use vstd::prelude::*;
use vstd::string::*;
use crate::ip::{parse_ipv4, parse_ipv6, read_ipv4, read_ipv6, IpAddress, SocketAddress};
use crate::text::{chars_of, slice_of};

verus! {

#[derive(Debug, Clone)]
pub struct ServerConfig {
    pub bind_address: String,
    pub bind_port: u16,
    pub workers: usize,
}

#[derive(Debug, Clone)]
pub struct SipConfig {
    pub domain: String,
    pub user_agent: String,
    pub max_forwards: u32,
    pub session_expires: u32,
}

#[derive(Debug, Clone)]
pub struct TransportSettings {
    pub protocols: Vec<String>,
    pub udp_port: Option<u16>,
    pub tcp_port: Option<u16>,
    pub tls_port: Option<u16>,
    pub tls_cert: Option<String>,
    pub tls_key: Option<String>,
}

#[derive(Debug, Clone)]
pub struct DatabaseConfig {
    pub url: String,
    pub max_connections: u32,
    pub min_connections: u32,
}

#[derive(Debug, Clone)]
pub struct TeamsConfig {
    pub enabled: bool,
    pub sbc_fqdn: String,
    pub mtls_cert: String,
    pub mtls_key: String,
    pub trunk_fqdn: String,
}

/// ACME/Let's Encrypt configuration.
#[derive(Debug, Clone)]
pub struct AcmeConfig {
    /// Enable ACME certificate management
    pub enabled: bool,
    /// Email for Let's Encrypt account and notifications
    pub email: String,
    /// Domain names to request certificates for
    pub domains: Vec<String>,
    /// Directory to store certificates
    pub cert_dir: String,
    /// Directory to store ACME account data
    pub account_dir: String,
    /// Use Let's Encrypt staging environment (for testing)
    pub use_staging: bool,
    /// HTTP challenge validation port (default: 80)
    pub http_challenge_port: u16,
    /// Challenge type: "http-01" or "dns-01"
    pub challenge_type: String,
    /// Auto-renew certificates (days before expiry)
    pub auto_renew_days: u32,
}

impl Default for AcmeConfig {
    fn default() -> (r: Self)
        ensures
            !r.enabled,
            r.email@.len() == 0,
            r.domains@.len() == 0,
            r.cert_dir@ == "/etc/rustalk/certs"@,
            r.account_dir@ == "/etc/rustalk/acme"@,
            !r.use_staging,
            r.http_challenge_port == 80,
            r.challenge_type@ == "http-01"@,
            r.auto_renew_days == 30,
    {
        AcmeConfig {
            enabled: false,
            email: String::new(),
            domains: Vec::new(),
            cert_dir: "/etc/rustalk/certs".to_owned(),
            account_dir: "/etc/rustalk/acme".to_owned(),
            use_staging: false,
            http_challenge_port: 80,
            challenge_type: "http-01".to_owned(),
            auto_renew_days: 30,
        }
    }
}

/// Main configuration structure.
#[derive(Debug, Clone)]
pub struct Config {
    pub server: ServerConfig,
    pub sip: SipConfig,
    pub transport: TransportSettings,
    pub database: Option<DatabaseConfig>,
    pub teams: Option<TeamsConfig>,
    pub acme: Option<AcmeConfig>,
}

/// Why the bind address is none.
#[derive(Debug, Clone, Copy, PartialEq, Eq, Structural)]
pub enum ConfigError {
    /// The address is neither a dotted quad nor an IPv6 address in square
    /// brackets.
    InvalidBindAddress,
}

impl ConfigError {
    /// A description of the error.
    pub fn message(&self) -> (s: String)
        ensures
            s@ == "invalid socket address syntax"@,
    {
        "invalid socket address syntax".to_owned()
    }
}

/// The address that a bind address text denotes: a dotted quad, or an IPv6
/// address in square brackets.
pub open spec fn bind_ip(s: Seq<char>) -> Option<IpAddress> {
    match parse_ipv4(s) {
        Some(a) => Some(IpAddress::V4(a)),
        None => if s.len() >= 2 && s[0] == '[' && s.last() == ']' {
            match parse_ipv6(s.subrange(1, s.len() - 1)) {
                Some(a) => Some(IpAddress::V6(a)),
                None => None,
            }
        } else {
            None
        },
    }
}

impl Config {
    /// Get bind address.
    pub fn bind_address(&self) -> (r: Result<SocketAddress, ConfigError>)
        ensures
            r == (match bind_ip(self.server.bind_address@) {
                Some(ip) => Ok::<SocketAddress, ConfigError>(
                    SocketAddress { ip, port: self.server.bind_port },
                ),
                None => Err::<SocketAddress, ConfigError>(ConfigError::InvalidBindAddress),
            }),
    {
        let v = chars_of(self.server.bind_address.as_str());
        match read_ipv4(&v) {
            Some(a) => Ok(SocketAddress { ip: IpAddress::V4(a), port: self.server.bind_port }),
            None => {
                let n = v.len();
                if n >= 2 && v[0] == '[' && v[n - 1] == ']' {
                    let inner = slice_of(&v, 1, n - 1);
                    match read_ipv6(&inner) {
                        Some(a) => Ok(
                            SocketAddress { ip: IpAddress::V6(a), port: self.server.bind_port },
                        ),
                        None => Err(ConfigError::InvalidBindAddress),
                    }
                } else {
                    Err(ConfigError::InvalidBindAddress)
                }
            },
        }
    }
}

impl Default for Config {
    fn default() -> (r: Self)
        ensures
            r.server.bind_address@ == "0.0.0.0"@,
            r.server.bind_port == 5060,
            r.server.workers == 4,
            r.sip.domain@ == "rustalk.local"@,
            r.sip.user_agent@ == "RusTalk/0.1.0"@,
            r.sip.max_forwards == 70,
            r.sip.session_expires == 1800,
            r.transport.protocols@.len() == 2,
            r.transport.protocols@[0]@ == "udp"@,
            r.transport.protocols@[1]@ == "tcp"@,
            r.transport.udp_port == Some(5060u16),
            r.transport.tcp_port == Some(5060u16),
            r.transport.tls_port == Some(5061u16),
            r.transport.tls_cert is None,
            r.transport.tls_key is None,
            r.database is None,
            r.teams is None,
            r.acme is None,
    {
        let mut protocols: Vec<String> = Vec::new();
        protocols.push("udp".to_owned());
        protocols.push("tcp".to_owned());
        Config {
            server: ServerConfig { bind_address: "0.0.0.0".to_owned(), bind_port: 5060, workers: 4 },
            sip: SipConfig {
                domain: "rustalk.local".to_owned(),
                user_agent: "RusTalk/0.1.0".to_owned(),
                max_forwards: 70,
                session_expires: 1800,
            },
            transport: TransportSettings {
                protocols,
                udp_port: Some(5060),
                tcp_port: Some(5060),
                tls_port: Some(5061),
                tls_cert: None,
                tls_key: None,
            },
            database: None,
            teams: None,
            acme: None,
        }
    }
}

} // verus!
