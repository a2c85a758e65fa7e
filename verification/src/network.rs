//! The host's addresses on the network, as they are shown to the user.

use crate::state::{http_url, write_http_url};
use crate::text::{
    contains_text, decimal, non_empty, push_decimal, text_contains, text_if_any, text_of, trim,
    trimmed,
};
use vstd::prelude::*;
use vstd::string::*;

verus! {

/// The first port on which the server tries to listen.
pub const FIRST_PORT: u16 = 3030;

/// The last port on which the server tries to listen.
pub const LAST_PORT: u16 = 3050;

/// The port to try after `port` could not be bound: the next one, up to the
/// last port. Beyond that the server gives up.
pub fn next_port(port: u16) -> (next: Option<u16>)
    ensures
        next == (if port < LAST_PORT {
            Some((port + 1) as u16)
        } else {
            None
        }),
{
    if port < LAST_PORT {
        Some(port + 1)
    } else {
        None
    }
}

/// The address that stands for the host where its address on the network
/// cannot be found.
pub const LOOPBACK: &'static str = "127.0.0.1";

/// The host's addresses on the network.
#[derive(Debug, PartialEq, Eq)]
pub struct NetworkInfo {
    pub local_ip: String,
    pub public_ip: Option<String>,
    pub port: u16,
    pub local_url: String,
    pub public_url: Option<String>,
    pub firewall_open: bool,
}

/// What a [`NetworkInfo`] holds, as plain values.
pub struct NetworkInfoView {
    pub local_ip: Seq<char>,
    pub public_ip: Option<Seq<char>>,
    pub port: u16,
    pub local_url: Seq<char>,
    pub public_url: Option<Seq<char>>,
    pub firewall_open: bool,
}

impl View for NetworkInfo {
    type V = NetworkInfoView;

    open spec fn view(&self) -> NetworkInfoView {
        NetworkInfoView {
            local_ip: self.local_ip@,
            public_ip: text_of(self.public_ip),
            port: self.port,
            local_url: self.local_url@,
            public_url: text_of(self.public_url),
            firewall_open: self.firewall_open,
        }
    }
}

/// The addresses of a host that serves on `port`: one on its own network,
/// and a public one where its public address is known.
pub open spec fn addresses_of(
    local_ip: Seq<char>,
    public_ip: Option<Seq<char>>,
    port: u16,
    firewall_open: bool,
) -> NetworkInfoView {
    NetworkInfoView {
        local_ip: local_ip,
        public_ip: public_ip,
        port: port,
        local_url: http_url(local_ip, port),
        public_url: match public_ip {
            Some(ip) => Some(http_url(ip, port)),
            None => None,
        },
        firewall_open: firewall_open,
    }
}

/// The addresses of a host that serves on `port`.
pub fn network_info(local_ip: String, public_ip: Option<String>, port: u16, firewall_open: bool) -> (info:
    NetworkInfo)
    ensures
        info@ == addresses_of(local_ip@, text_of(public_ip), port, firewall_open),
{
    let local_url = write_http_url(local_ip.as_str(), port);
    let public_url = match &public_ip {
        Some(ip) => Some(write_http_url(ip.as_str(), port)),
        None => None,
    };
    NetworkInfo {
        local_ip: local_ip,
        public_ip: public_ip,
        port: port,
        local_url: local_url,
        public_url: public_url,
        firewall_open: firewall_open,
    }
}

/// The host's address on its network: the one found, or the loopback
/// address where none was found.
pub fn local_ip_or_loopback(found: Option<String>) -> (ip: String)
    ensures
        ip@ == (match found {
            Some(address) => address@,
            None => LOOPBACK@,
        }),
{
    match found {
        Some(address) => address,
        None => String::from_str(LOOPBACK),
    }
}

/// The public address that a lookup service has answered with: its answer
/// without the white space around it, and nothing where that is empty.
pub fn public_ip_from(answer: &str) -> (ip: Option<String>)
    ensures
        text_of(ip) == non_empty(trimmed(answer@)),
{
    text_if_any(trim(answer))
}

/// Whether what the firewall shows of the host's rule names the port
/// `port`: whether the port's number stands somewhere in it.
pub fn rule_names_port(shown: &str, port: u16) -> (named: bool)
    ensures
        named == contains_text(shown@, decimal(port as nat)),
{
    let mut number = String::new();
    push_decimal(&mut number, port as u64);
    assert(number@ =~= decimal(port as nat));
    text_contains(shown, number.as_str())
}

} // verus!
