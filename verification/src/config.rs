//! Validated, immutable run parameters.
//!
//! Parsed once at startup; the upstream address must be a valid IPv4 or
//! IPv6 literal, and an invalid one is a startup error that names the
//! offending text, so that no service is started on a bad address.

use vstd::prelude::*;
use crate::ip::{parse_ipv4, parse_ipv6, valid_ipv4, ipv4_octets, ipv6_groups};

verus! {

/// A validated IP-address literal, as plain values.
#[derive(Clone, Debug)]
pub enum IpLit {
    /// An IPv4 address: its four octets.
    V4 { a: u8, b: u8, c: u8, d: u8 },
    /// An IPv6 address: its eight 16-bit groups.
    V6 { g0: u16, g1: u16, g2: u16, g3: u16, g4: u16, g5: u16, g6: u16, g7: u16 },
}

/// Why loading the configuration failed.
#[derive(Clone, Debug)]
pub enum ConfigError {
    /// The upstream address text is not a valid IP literal; holds the
    /// offending text.
    InvalidUpstreamAddress { given: String },
}

impl ConfigError {
    /// A diagnostic line naming the offending value.
    pub fn message(&self) -> (r: String)
        ensures
            (match self {
                ConfigError::InvalidUpstreamAddress { given } => r@ == "invalid upstream IP address: "@
                    + given@,
            }),
    {
        match self {
            ConfigError::InvalidUpstreamAddress { given } => {
                let mut m = String::from_str("invalid upstream IP address: ");
                m.append(given.as_str());
                m
            },
        }
    }
}

/// The run parameters, fixed for the life of the process.
#[derive(Debug)]
pub struct Config {
    /// Local TCP port that accepts client connections.
    pub listen_port: u16,
    /// The single backend address every request is forwarded to.
    pub upstream_ip: IpLit,
    /// The backend TCP port.
    pub upstream_port: u16,
    /// Host-header value sent upstream, and the authority written into
    /// rewritten Referer/Origin values.
    pub virtual_host: String,
    /// Value forced into X-Forwarded-For.
    pub spoofed_client_ip: String,
}

/// Whether `s` is an acceptable upstream IP literal.
pub open spec fn valid_ip_text(s: Seq<char>) -> bool {
    valid_ipv4(s) || crate::ip::valid_ipv6(s)
}

impl Config {
    /// Validates the run parameters.  Pure parsing: no I/O.  Fails if and
    /// only if the upstream IP text is not a valid IP literal, naming the
    /// offending text in the error.
    pub fn load(
        listen_port: u16,
        upstream_ip: &str,
        upstream_port: u16,
        virtual_host: &str,
        spoofed_client_ip: &str,
    ) -> (r: Result<Config, ConfigError>)
        ensures
            r is Ok <==> valid_ip_text(upstream_ip@),
            (match r {
                Ok(c) => {
                    &&& c.listen_port == listen_port
                    &&& c.upstream_port == upstream_port
                    &&& c.virtual_host@ == virtual_host@
                    &&& c.spoofed_client_ip@ == spoofed_client_ip@
                    &&& (match c.upstream_ip {
                        IpLit::V4 { a, b, c, d } => valid_ipv4(upstream_ip@) && (
                        a as int,
                        b as int,
                        c as int,
                        d as int,
                        ) == ipv4_octets(upstream_ip@),
                        IpLit::V6 { g0, g1, g2, g3, g4, g5, g6, g7 } => !valid_ipv4(upstream_ip@)
                            && seq![
                            g0 as int,
                            g1 as int,
                            g2 as int,
                            g3 as int,
                            g4 as int,
                            g5 as int,
                            g6 as int,
                            g7 as int,
                        ] == ipv6_groups(upstream_ip@),
                    })
                },
                Err(e) => (match e {
                    ConfigError::InvalidUpstreamAddress { given } => given@ == upstream_ip@,
                }),
            }),
    {
        let ip = match parse_ipv4(upstream_ip) {
            Some(o) => IpLit::V4 { a: o.0, b: o.1, c: o.2, d: o.3 },
            None => {
                match parse_ipv6(upstream_ip) {
                    Some(g) => {
                        assert(g@.map_values(|x: u16| x as int) =~= seq![
                            g@[0] as int,
                            g@[1] as int,
                            g@[2] as int,
                            g@[3] as int,
                            g@[4] as int,
                            g@[5] as int,
                            g@[6] as int,
                            g@[7] as int,
                        ]);
                        IpLit::V6 {
                            g0: g[0],
                            g1: g[1],
                            g2: g[2],
                            g3: g[3],
                            g4: g[4],
                            g5: g[5],
                            g6: g[6],
                            g7: g[7],
                        }
                    },
                    None => {
                        return Err(
                            ConfigError::InvalidUpstreamAddress {
                                given: String::from_str(upstream_ip),
                            },
                        );
                    },
                }
            },
        };
        Ok(
            Config {
                listen_port,
                upstream_ip: ip,
                upstream_port,
                virtual_host: String::from_str(virtual_host),
                spoofed_client_ip: String::from_str(spoofed_client_ip),
            },
        )
    }
}

} // verus!
