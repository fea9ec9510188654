//! NAT classification.
//!
//! The network probes — binding requests over UDP — happen outside; the
//! classification of their results into a NAT type, the recognition of
//! carrier-grade address space, and the reading of the mapped address out of
//! a response's attributes are decided here.

use vstd::prelude::*;

verus! {

/// NAT type classification.
#[derive(Clone, Copy, Debug, PartialEq, Eq, Structural)]
pub enum NatType {
    /// No NAT: a direct public address.
    NoNat,
    /// Full cone NAT: any external host can send to the mapped port.
    FullCone,
    /// Restricted cone NAT: only hosts already contacted can reply.
    RestrictedCone,
    /// Port-restricted cone NAT: only contacted host-and-port pairs reply.
    PortRestricted,
    /// Symmetric NAT: a different mapping per destination.
    Symmetric,
    /// Carrier-grade NAT: provider-level address sharing.
    CarrierGradeNat,
    /// Behind more than one NAT layer.
    DoubleNat,
    /// Could not be determined.
    Unknown,
}

impl NatType {
    /// A human-readable description of the NAT type.
    pub fn description(&self) -> (r: &'static str)
        ensures
            r@ == spec_nat_type_description(*self),
    {
        match self {
            NatType::NoNat => "No NAT (direct public IP)",
            NatType::FullCone => "Full Cone NAT (best for P2P)",
            NatType::RestrictedCone => "Restricted Cone NAT (P2P possible)",
            NatType::PortRestricted => "Port Restricted Cone NAT (P2P may work)",
            NatType::Symmetric => "Symmetric NAT (TURN relay may be needed)",
            NatType::CarrierGradeNat => "Carrier-Grade NAT (ISP-level, TURN required)",
            NatType::DoubleNat => "Double NAT (complex setup, TURN recommended)",
            NatType::Unknown => "Unknown NAT type",
        }
    }

    /// Whether direct peer-to-peer connections are likely to work.
    pub fn supports_direct_connection(&self) -> (r: bool)
        ensures
            r == (*self == NatType::NoNat || *self == NatType::FullCone || *self
                == NatType::RestrictedCone || *self == NatType::PortRestricted),
    {
        match self {
            NatType::NoNat => true,
            NatType::FullCone => true,
            NatType::RestrictedCone => true,
            NatType::PortRestricted => true,
            _ => false,
        }
    }

    /// The stable identifier of the NAT type on the wire.
    pub fn as_str(&self) -> (r: &'static str)
        ensures
            r@ == spec_nat_type_str(*self),
    {
        match self {
            NatType::NoNat => "none",
            NatType::FullCone => "full_cone",
            NatType::RestrictedCone => "restricted_cone",
            NatType::PortRestricted => "port_restricted",
            NatType::Symmetric => "symmetric",
            NatType::CarrierGradeNat => "carrier_grade_nat",
            NatType::DoubleNat => "double_nat",
            NatType::Unknown => "unknown",
        }
    }
}

/// The human-readable description of each NAT type.
pub open spec fn spec_nat_type_description(t: NatType) -> Seq<char> {
    match t {
        NatType::NoNat => "No NAT (direct public IP)"@,
        NatType::FullCone => "Full Cone NAT (best for P2P)"@,
        NatType::RestrictedCone => "Restricted Cone NAT (P2P possible)"@,
        NatType::PortRestricted => "Port Restricted Cone NAT (P2P may work)"@,
        NatType::Symmetric => "Symmetric NAT (TURN relay may be needed)"@,
        NatType::CarrierGradeNat => "Carrier-Grade NAT (ISP-level, TURN required)"@,
        NatType::DoubleNat => "Double NAT (complex setup, TURN recommended)"@,
        NatType::Unknown => "Unknown NAT type"@,
    }
}

/// The stable wire identifier of each NAT type.
pub open spec fn spec_nat_type_str(t: NatType) -> Seq<char> {
    match t {
        NatType::NoNat => "none"@,
        NatType::FullCone => "full_cone"@,
        NatType::RestrictedCone => "restricted_cone"@,
        NatType::PortRestricted => "port_restricted"@,
        NatType::Symmetric => "symmetric"@,
        NatType::CarrierGradeNat => "carrier_grade_nat"@,
        NatType::DoubleNat => "double_nat"@,
        NatType::Unknown => "unknown"@,
    }
}

/// Whether an IPv4 address, given by its octets, lies in the carrier-grade
/// NAT range 100.64.0.0/10.
pub fn is_cgnat_address(o0: u8, o1: u8, o2: u8, o3: u8) -> (r: bool)
    ensures
        r == (o0 == 100 && 64 <= o1 <= 127),
{
    o0 == 100 && o1 >= 64 && o1 <= 127
}

/// The outcome of one binding request: the mapped address as the probe
/// server saw it.
pub struct StunResult {
    /// The external IPv4 address, as octets.
    pub external_ip: [u8; 4],
    /// The external port.
    pub external_port: u16,
    /// The probe server that answered.
    pub stun_server: String,
}

/// The outcome of NAT detection.
pub struct NatDetectionResult {
    /// The detected NAT type.
    pub nat_type: NatType,
    /// The external address, when one was learnt.
    pub external_ip: Option<[u8; 4]>,
    /// The external port, when one was learnt.
    pub external_port: Option<u16>,
    /// Whether detection succeeded.
    pub success: bool,
    /// The failure message, when it did not.
    pub error: Option<String>,
}

/// The probing client: its timeout and the servers it asks.
pub struct StunClient {
    /// Per-request timeout in seconds.
    pub timeout_secs: u64,
    /// The probe servers, in preference order.
    pub stun_servers: Vec<String>,
}

impl StunClient {
    /// A client with the default timeout and the default probe servers.
    pub fn new() -> (r: StunClient)
        ensures
            r.timeout_secs == 3,
            r.stun_servers@.len() == 4,
            r.stun_servers@[0]@ == "stun.l.google.com:19302"@,
            r.stun_servers@[1]@ == "stun1.l.google.com:19302"@,
            r.stun_servers@[2]@ == "stun2.l.google.com:19302"@,
            r.stun_servers@[3]@ == "stun.cloudflare.com:3478"@,
    {
        let mut servers: Vec<String> = Vec::new();
        servers.push("stun.l.google.com:19302".to_owned());
        servers.push("stun1.l.google.com:19302".to_owned());
        servers.push("stun2.l.google.com:19302".to_owned());
        servers.push("stun.cloudflare.com:3478".to_owned());
        StunClient { timeout_secs: 3, stun_servers: servers }
    }

    /// A client with caller-supplied probe servers.
    pub fn with_servers(servers: Vec<String>) -> (r: StunClient)
        ensures
            r.timeout_secs == 3,
            r.stun_servers == servers,
    {
        StunClient { timeout_secs: 3, stun_servers: servers }
    }
}

/// Classify the NAT from the probe outcomes: the first binding result, an
/// optional second one from a different server, and the local address.
/// No first result means detection failed.  A carrier-grade mapped address
/// wins; a mapped address equal to the local one means no NAT; differing
/// ports across servers mean a symmetric NAT; differing addresses mean a
/// double NAT; otherwise the most common case, a port-restricted NAT, is
/// assumed.
pub fn classify_nat(
    first: Option<&StunResult>,
    second: Option<&StunResult>,
    local_ip: Option<[u8; 4]>,
) -> (r: NatDetectionResult)
    ensures
        match first {
            None => !r.success && r.nat_type == NatType::Unknown && r.external_ip is None
                && r.external_port is None && r.error is Some,
            Some(f) => {
                &&& r.success
                &&& r.error is None
                &&& r.external_ip == Some(f.external_ip)
                &&& r.external_port == Some(f.external_port)
                &&& r.nat_type == (if f.external_ip[0] == 100 && 64 <= f.external_ip[1] <= 127 {
                    NatType::CarrierGradeNat
                } else if local_ip == Some(f.external_ip) {
                    NatType::NoNat
                } else {
                    match second {
                        Some(s) => if s.external_port != f.external_port {
                            NatType::Symmetric
                        } else if s.external_ip != f.external_ip {
                            NatType::DoubleNat
                        } else {
                            NatType::PortRestricted
                        },
                        None => NatType::PortRestricted,
                    }
                })
            },
        },
{
    let f = match first {
        Some(f) => f,
        None => {
            return NatDetectionResult {
                nat_type: NatType::Unknown,
                external_ip: None,
                external_port: None,
                success: false,
                error: Some("Failed to contact any STUN server".to_owned()),
            };
        },
    };
    let nat_type = if is_cgnat_address(
        f.external_ip[0],
        f.external_ip[1],
        f.external_ip[2],
        f.external_ip[3],
    ) {
        NatType::CarrierGradeNat
    } else if ip_equals(local_ip, &f.external_ip) {
        NatType::NoNat
    } else {
        match second {
            Some(s) => {
                if s.external_port != f.external_port {
                    NatType::Symmetric
                } else if !arrays_equal(&s.external_ip, &f.external_ip) {
                    NatType::DoubleNat
                } else {
                    NatType::PortRestricted
                }
            },
            None => NatType::PortRestricted,
        }
    };
    NatDetectionResult {
        nat_type,
        external_ip: Some(f.external_ip),
        external_port: Some(f.external_port),
        success: true,
        error: None,
    }
}

/// Whether an optional local address equals a mapped address.
fn ip_equals(a: Option<[u8; 4]>, b: &[u8; 4]) -> (r: bool)
    ensures
        r == (a == Some(*b)),
{
    match a {
        Some(octets) => arrays_equal(&octets, b),
        None => false,
    }
}

/// Octet-wise address comparison.
fn arrays_equal(a: &[u8; 4], b: &[u8; 4]) -> (r: bool)
    ensures
        r == (*a == *b),
{
    let r = a[0] == b[0] && a[1] == b[1] && a[2] == b[2] && a[3] == b[3];
    proof {
        if a@ =~= b@ {
            assert(*a == *b);
        }
        if r {
            assert(a@ =~= b@);
        } else {
            assert(a@ != b@);
            assert(*a != *b);
        }
    }
    r
}

/// One attribute of a binding response, reduced to what the mapped-address
/// extraction reads.
pub enum StunAttribute {
    /// The exclusive-or mapped address, as already decoded octets and port.
    XorMappedAddress { ip: [u8; 4], port: u16 },
    /// The plain mapped address.
    MappedAddress { ip: [u8; 4], port: u16 },
    /// Any other attribute.
    Other,
}

/// Whether an attribute is an exclusive-or mapped address.
pub open spec fn is_xor_mapped(a: StunAttribute) -> bool {
    a is XorMappedAddress
}

/// Whether an attribute is a plain mapped address.
pub open spec fn is_plain_mapped(a: StunAttribute) -> bool {
    a is MappedAddress
}

/// The address and port an attribute carries.
pub open spec fn spec_attr_addr(a: StunAttribute) -> ([u8; 4], u16) {
    match a {
        StunAttribute::XorMappedAddress { ip, port } => (ip, port),
        StunAttribute::MappedAddress { ip, port } => (ip, port),
        StunAttribute::Other => ([0u8, 0u8, 0u8, 0u8], 0u16),
    }
}

/// Extract the mapped address of a binding response: the first exclusive-or
/// mapped address is preferred; the plain mapped address is the fallback; a
/// response carrying neither yields nothing.
pub fn extract_mapped_address(attrs: &Vec<StunAttribute>) -> (r: Option<([u8; 4], u16)>)
    ensures
        match r {
            Some(addr) => exists|i: int|
                #![trigger attrs@[i]]
                0 <= i < attrs@.len() && addr == spec_attr_addr(attrs@[i]) && ((is_xor_mapped(
                    attrs@[i],
                ) && (forall|k: int| 0 <= k < i ==> !is_xor_mapped(#[trigger] attrs@[k])))
                    || (is_plain_mapped(attrs@[i]) && (forall|k: int|
                    0 <= k < attrs@.len() ==> !is_xor_mapped(#[trigger] attrs@[k])) && (forall|
                    k: int,
                |
                    0 <= k < i ==> !is_plain_mapped(#[trigger] attrs@[k])))),
            None => forall|i: int|
                0 <= i < attrs@.len() ==> !is_xor_mapped(#[trigger] attrs@[i]) && !is_plain_mapped(
                    attrs@[i],
                ),
        },
{
    let n = attrs.len();
    let mut i: usize = 0;
    while i < n
        invariant
            n == attrs@.len(),
            i <= n,
            forall|k: int| 0 <= k < i ==> !is_xor_mapped(#[trigger] attrs@[k]),
        decreases n - i,
    {
        if let StunAttribute::XorMappedAddress { ip, port } = &attrs[i] {
            return Some((*ip, *port));
        }
        i = i + 1;
    }
    let mut j: usize = 0;
    while j < n
        invariant
            n == attrs@.len(),
            j <= n,
            forall|k: int| 0 <= k < n ==> !is_xor_mapped(#[trigger] attrs@[k]),
            forall|k: int| 0 <= k < j ==> !is_plain_mapped(#[trigger] attrs@[k]),
        decreases n - j,
    {
        if let StunAttribute::MappedAddress { ip, port } = &attrs[j] {
            return Some((*ip, *port));
        }
        j = j + 1;
    }
    None
}

} // verus!
