//! Remote access information.
//!
//! The server's external connectivity — external address, NAT type, relay
//! recommendation, ICE servers — is discovered once at startup and cached for
//! inclusion in pairing responses.  The discovery probes run outside; the
//! decisions over their results are made here.

use vstd::prelude::*;

use crate::stun::{NatDetectionResult, spec_nat_type_str};

verus! {

/// One ICE server entry handed to clients.
pub struct RtcIceServer {
    pub urls: Vec<String>,
    pub username: Option<String>,
    pub credential: Option<String>,
}

/// The cached remote access information.
pub struct RemoteAccessInfo {
    /// The external address, when discovered.
    pub external_ip: Option<String>,
    /// The configured host name, when given.
    pub hostname: Option<String>,
    /// The port remote clients connect to.
    pub port: u16,
    /// Whether the web tier presents a certificate.
    pub ssl_available: bool,
    /// How the external address was discovered.
    pub discovery_method: String,
    /// The NAT type's wire identifier.
    pub nat_type: String,
    /// Whether a relay is recommended for this NAT.
    pub turn_recommended: bool,
    /// The ICE servers to hand out, when any are configured.
    pub ice_servers: Option<Vec<RtcIceServer>>,
}

/// The remote-access part of the configuration.
pub struct RemoteConfig {
    /// Whether remote access information is served at all.
    pub enabled: bool,
    /// A host name the operator knows the server by.
    pub hostname: Option<String>,
    /// A port override for remote clients.
    pub port: Option<u16>,
    /// Whether remote access must not be offered without a certificate.
    pub ssl_required: bool,
    /// Whether external probing is allowed.
    pub stun_discovery: bool,
}

/// Cached remote access information for inclusion in responses.
pub struct RemoteAccessProvider {
    info: Option<RemoteAccessInfo>,
}

impl RemoteAccessProvider {
    /// The cached information.
    pub closed spec fn spec_info(&self) -> Option<RemoteAccessInfo> {
        self.info
    }

    /// Cache already-built remote access information.
    pub fn from_parts(info: Option<RemoteAccessInfo>) -> (r: RemoteAccessProvider)
        ensures
            r.spec_info() == info,
    {
        RemoteAccessProvider { info }
    }

    /// The cached remote access information.
    pub fn get_info(&self) -> (r: Option<&RemoteAccessInfo>)
        ensures
            match r {
                Some(info) => self.spec_info() == Some(*info),
                None => self.spec_info() is None,
            },
    {
        match &self.info {
            Some(info) => Some(info),
            None => None,
        }
    }

    /// Whether remote access information is available.
    pub fn is_available(&self) -> (r: bool)
        ensures
            r == (self.spec_info() is Some),
    {
        self.info.is_some()
    }
}

/// Choose the external address: a port mapping's address wins, the probe
/// result is the fallback when probing is allowed, and otherwise none was
/// discovered.  The second result names the discovery method.
pub fn discover_external_ip(
    upnp_ip: Option<String>,
    stun_ip: Option<String>,
    stun_discovery: bool,
) -> (r: (Option<String>, String))
    ensures
        match upnp_ip {
            Some(ip) => r.0 == Some(ip) && r.1@ == "upnp"@,
            None => if stun_discovery && stun_ip is Some {
                r.0 == stun_ip && r.1@ == "stun"@
            } else {
                r.0 is None && r.1@ == "none"@
            },
        },
{
    match upnp_ip {
        Some(ip) => (Some(ip), "upnp".to_owned()),
        None => {
            if stun_discovery {
                match stun_ip {
                    Some(ip) => (Some(ip), "stun".to_owned()),
                    None => (None, "none".to_owned()),
                }
            } else {
                (None, "none".to_owned())
            }
        },
    }
}

/// The NAT type identifier and relay recommendation for the pairing
/// response: probing disabled or failed reads as unknown without a relay;
/// a successful detection recommends a relay exactly when the NAT does not
/// support direct connections.
pub fn detect_nat_info(stun_discovery: bool, detection: Option<&NatDetectionResult>) -> (r: (
    String,
    bool,
))
    ensures
        match detection {
            Some(d) => if stun_discovery && d.success {
                r.0@ == spec_nat_type_str(d.nat_type) && r.1 == !(d.nat_type
                    == crate::stun::NatType::NoNat || d.nat_type == crate::stun::NatType::FullCone
                    || d.nat_type == crate::stun::NatType::RestrictedCone || d.nat_type
                    == crate::stun::NatType::PortRestricted)
            } else {
                r.0@ == "unknown"@ && r.1 == false
            },
            None => r.0@ == "unknown"@ && r.1 == false,
        },
{
    if !stun_discovery {
        return ("unknown".to_owned(), false);
    }
    match detection {
        Some(d) => {
            if d.success {
                let turn_recommended = !d.nat_type.supports_direct_connection();
                (d.nat_type.as_str().to_owned(), turn_recommended)
            } else {
                ("unknown".to_owned(), false)
            }
        },
        None => ("unknown".to_owned(), false),
    }
}

/// Assemble the ICE server list: the configured servers plus the relay
/// server when one is configured; no servers at all reads as none.
pub fn build_ice_servers(servers: Vec<RtcIceServer>, turn_server: Option<RtcIceServer>) -> (r:
    Option<Vec<RtcIceServer>>)
    ensures
        match turn_server {
            Some(turn) => r is Some && r->0@ == servers@.push(turn),
            None => if servers@.len() == 0 {
                r is None
            } else {
                r == Some(servers)
            },
        },
{
    let mut servers = servers;
    match turn_server {
        Some(turn) => {
            servers.push(turn);
            Some(servers)
        },
        None => {
            if servers.len() == 0 {
                None
            } else {
                Some(servers)
            }
        },
    }
}

/// Build the remote access information from the configuration and the
/// discovery outcomes.  Nothing is offered when neither an external address
/// nor a host name is known, or when the configuration demands a certificate
/// and none is available.
pub fn build_remote_access_info(
    remote: RemoteConfig,
    web_port: u16,
    ssl_available: bool,
    external_ip: Option<String>,
    discovery_method: String,
    nat_type: String,
    turn_recommended: bool,
    ice_servers: Option<Vec<RtcIceServer>>,
) -> (r: Option<RemoteAccessInfo>)
    ensures
        (external_ip is None && remote.hostname is None) ==> r is None,
        (remote.ssl_required && !ssl_available) ==> r is None,
        match r {
            Some(info) => {
                &&& (external_ip is Some || remote.hostname is Some)
                &&& (!remote.ssl_required || ssl_available)
                &&& info.external_ip == external_ip
                &&& info.hostname == remote.hostname
                &&& info.port == (if remote.port is Some {
                    remote.port->0
                } else {
                    web_port
                })
                &&& info.ssl_available == ssl_available
                &&& info.discovery_method == discovery_method
                &&& info.nat_type == nat_type
                &&& info.turn_recommended == turn_recommended
                &&& info.ice_servers == ice_servers
            },
            None => external_ip is None && remote.hostname is None || remote.ssl_required
                && !ssl_available,
        },
{
    if external_ip.is_none() && remote.hostname.is_none() {
        return None;
    }
    if remote.ssl_required && !ssl_available {
        return None;
    }
    let port = match remote.port {
        Some(p) => p,
        None => web_port,
    };
    Some(
        RemoteAccessInfo {
            external_ip,
            hostname: remote.hostname,
            port,
            ssl_available,
            discovery_method,
            nat_type,
            turn_recommended,
            ice_servers,
        },
    )
}

/// A host answer enriched for the pairing response.
pub struct DetailedHost {
    /// The host's display name.
    pub name: String,
    /// Whether the host is paired.
    pub paired: bool,
    /// The remote access information attached for remote clients.
    pub remote_access: Option<RemoteAccessInfo>,
}

/// Attach the cached remote access information to a host response.
pub fn attach_remote_access(host: DetailedHost, remote_provider: RemoteAccessProvider) -> (r:
    DetailedHost)
    ensures
        r.name == host.name,
        r.paired == host.paired,
        r.remote_access == remote_provider.spec_info(),
{
    let RemoteAccessProvider { info } = remote_provider;
    DetailedHost { name: host.name, paired: host.paired, remote_access: info }
}

} // verus!
