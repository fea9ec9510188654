//! Plain data carried by the web tier's diagnostics and session endpoints.
//!
//! The handlers themselves live with the I/O; these are the values they
//! exchange.

use vstd::prelude::*;

verus! {

/// Network status for remote streaming diagnostics.
pub struct NetworkStatusResponse {
    /// Port-mapping status.
    pub upnp: UpnpStatusResponse,
    /// NAT type detection results.
    pub nat: NatStatusResponse,
    /// The server's local addresses.
    pub local_addresses: Vec<String>,
    /// Whether the server is likely accessible remotely.
    pub remote_accessible: bool,
    /// Whether direct peer-to-peer connections are likely to work.
    pub direct_connection_possible: bool,
    /// Whether a relay may be needed.
    pub turn_recommended: bool,
    /// Issues detected with the network configuration.
    pub issues: Vec<NetworkIssue>,
}

/// Port-mapping status.
pub struct UpnpStatusResponse {
    /// Whether port mapping is enabled in the configuration.
    pub enabled: bool,
    /// Whether a gateway was found.
    pub available: bool,
    /// The external address the gateway reported.
    pub external_ip: Option<String>,
    /// The gateway device description.
    pub gateway: Option<String>,
    /// The successfully mapped ports.
    pub mapped_ports: Vec<MappedPortResponse>,
    /// The last error, when port mapping failed.
    pub last_error: Option<String>,
}

/// NAT detection status.
pub struct NatStatusResponse {
    /// The detected NAT type's identifier.
    pub nat_type: String,
    /// A human-readable description of the NAT type.
    pub description: String,
    /// The external address the probe discovered.
    pub external_ip_stun: Option<String>,
    /// The external port the probe discovered.
    pub external_port_stun: Option<u16>,
    /// Whether detection succeeded.
    pub detection_successful: bool,
    /// The failure message, when it did not.
    pub error: Option<String>,
}

/// One mapped port.
pub struct MappedPortResponse {
    pub external_port: u16,
    pub internal_port: u16,
    pub protocol: String,
    pub success: bool,
}

/// One detected network issue.
pub struct NetworkIssue {
    /// The severity: a warning or an error.
    pub severity: String,
    /// The issue code for programmatic handling.
    pub code: String,
    /// A human-readable description.
    pub message: String,
}

/// Current session and game status for the client.
pub struct SessionStatusResponse {
    /// Whether a game is running, even when not currently streamed.
    pub has_running_game: bool,
    /// The running game's application identifier, zero when none.
    pub current_game_id: u32,
    /// Game information, when available.
    pub game: Option<SessionGameInfo>,
}

/// The identity of the running game.
pub struct SessionGameInfo {
    pub id: String,
    pub title: String,
}

/// The answer to a pause request.
pub struct SessionPauseResponse {
    pub success: bool,
    pub message: String,
}

/// A request to end the session.
pub struct SessionEndRequest {
    /// The host, when not the first one.
    pub host_id: Option<u32>,
}

/// The answer to an end request.
pub struct SessionEndResponse {
    pub success: bool,
    pub message: String,
}

/// A host identifier.
#[derive(Clone, Copy, Debug, PartialEq, Eq, Structural)]
pub struct HostId(pub u32);

/// An application identifier on a host.
#[derive(Clone, Copy, Debug, PartialEq, Eq, Structural)]
pub struct AppId(pub u32);

/// An application offered by a host.
pub struct App {
    pub id: AppId,
    pub title: String,
    pub is_hdr_supported: bool,
}

/// The severity and code of the issue a NAT detection outcome raises, when
/// it raises one.  A failed detection raises its own issue.
pub fn nat_issue(detection_successful: bool, nat_type: crate::stun::NatType) -> (r: Option<(
    &'static str,
    &'static str,
)>)
    ensures
        r == (if !detection_successful {
            Some(("warning", "stun_failed"))
        } else {
            match nat_type {
                crate::stun::NatType::Symmetric => Some(("warning", "symmetric_nat")),
                crate::stun::NatType::CarrierGradeNat => Some(("error", "cgnat_detected")),
                crate::stun::NatType::DoubleNat => Some(("warning", "double_nat")),
                crate::stun::NatType::Unknown => Some(("warning", "nat_unknown")),
                _ => None::<(&'static str, &'static str)>,
            }
        }),
{
    if !detection_successful {
        return Some(("warning", "stun_failed"));
    }
    match nat_type {
        crate::stun::NatType::Symmetric => Some(("warning", "symmetric_nat")),
        crate::stun::NatType::CarrierGradeNat => Some(("error", "cgnat_detected")),
        crate::stun::NatType::DoubleNat => Some(("warning", "double_nat")),
        crate::stun::NatType::Unknown => Some(("warning", "nat_unknown")),
        _ => None,
    }
}

/// The issue a port-mapping outcome raises, when it raises one: an absent
/// gateway, or mappings that partially failed.
pub fn upnp_issue(gateway_available: bool, failed_port_count: usize) -> (r: Option<(
    &'static str,
    &'static str,
)>)
    ensures
        r == (if !gateway_available {
            Some(("warning", "upnp_unavailable"))
        } else if failed_port_count > 0 {
            Some(("warning", "upnp_partial_failure"))
        } else {
            None::<(&'static str, &'static str)>
        }),
{
    if !gateway_available {
        Some(("warning", "upnp_unavailable"))
    } else if failed_port_count > 0 {
        Some(("warning", "upnp_partial_failure"))
    } else {
        None
    }
}

/// Whether the differing external addresses of the two discovery paths raise
/// the address-mismatch issue.
pub fn external_ip_mismatch(upnp_ip: Option<&String>, probe_ip: Option<&String>) -> (r: bool)
    ensures
        r == (upnp_ip is Some && probe_ip is Some && upnp_ip->0@ != probe_ip->0@),
{
    match (upnp_ip, probe_ip) {
        (Some(a), Some(b)) => !(*a == *b),
        _ => false,
    }
}

/// Whether the server counts as remotely accessible after NAT detection: a
/// carrier-grade NAT never is; a NAT that supports direct connections with a
/// known external address is; anything else keeps the port-mapping verdict.
pub fn remote_accessible_after_nat(
    before: bool,
    detection_successful: bool,
    nat_type: crate::stun::NatType,
    has_external_ip: bool,
) -> (r: bool)
    ensures
        r == (if detection_successful && nat_type == crate::stun::NatType::CarrierGradeNat {
            false
        } else if detection_successful && has_external_ip && (nat_type
            == crate::stun::NatType::NoNat || nat_type == crate::stun::NatType::FullCone
            || nat_type == crate::stun::NatType::RestrictedCone || nat_type
            == crate::stun::NatType::PortRestricted) {
            true
        } else {
            before
        }),
{
    if detection_successful {
        match nat_type {
            crate::stun::NatType::CarrierGradeNat => false,
            crate::stun::NatType::NoNat
            | crate::stun::NatType::FullCone
            | crate::stun::NatType::RestrictedCone
            | crate::stun::NatType::PortRestricted => {
                if has_external_ip {
                    true
                } else {
                    before
                }
            },
            _ => before,
        }
    } else {
        before
    }
}

} // verus!

