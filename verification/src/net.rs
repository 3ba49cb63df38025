use vstd::prelude::*;
use crate::models::IpVersion;

verus! {

/// An IP network: an address and a prefix length, the natural key of a
/// blocklist entry. The address is held as its numeric value so that the
/// verified logic can compare and classify networks directly.
#[derive(Clone, Copy, Debug, PartialEq, Eq, Structural, Hash)]
pub enum IpNet {
    V4 { addr: u32, prefix: u8 },
    V6 { addr: u128, prefix: u8 },
}

impl IpNet {
    /// A well-formed network's prefix length never exceeds the address
    /// family's bit width.
    pub open spec fn wf(self) -> bool {
        match self {
            IpNet::V4 { addr: _, prefix } => prefix <= 32,
            IpNet::V6 { addr: _, prefix } => prefix <= 128,
        }
    }

    /// The address family implied by the shape of the network.
    pub open spec fn version_spec(self) -> IpVersion {
        match self {
            IpNet::V4 { .. } => IpVersion::Ipv4,
            IpNet::V6 { .. } => IpVersion::Ipv6,
        }
    }

    /// Derives the version tag from the network's address family; this is
    /// the only way a stored entry's version is ever determined.
    pub fn version(&self) -> (v: IpVersion)
        ensures
            v == self.version_spec(),
    {
        match self {
            IpNet::V4 { .. } => IpVersion::Ipv4,
            IpNet::V6 { .. } => IpVersion::Ipv6,
        }
    }
}

/// The network denoted by a piece of text in CIDR notation, or nothing when
/// the text denotes none. What `ipnetwork::IpNetwork::from_str` accepts and
/// returns depends on the text alone.
pub uninterp spec fn parse_net_spec(s: Seq<char>) -> Option<IpNet>;

/// The canonical textual form of a network, address then `/` then prefix
/// length. What `ipnetwork::IpNetwork`'s display writes depends on the
/// network alone.
pub uninterp spec fn net_text_spec(n: IpNet) -> Seq<char>;

/// Relies on ipnetwork::IpNetwork::from_str: parsing is a function of the
/// text alone, and an accepted network's prefix length is validated against
/// its family's bit width (Ipv4Network::new / Ipv6Network::new).
#[verifier::external_body]
fn parse_net_raw(s: &str) -> (r: Result<IpNet, String>)
    ensures
        (r matches Ok(n) ==> parse_net_spec(s@) == Some(n) && n.wf()),
        (r matches Err(_) ==> parse_net_spec(s@) is None),
{
    match s.parse::<ipnetwork::IpNetwork>() {
        Ok(ipnetwork::IpNetwork::V4(n)) => Ok(
            IpNet::V4 { addr: u32::from(n.ip()), prefix: n.prefix() },
        ),
        Ok(ipnetwork::IpNetwork::V6(n)) => Ok(
            IpNet::V6 { addr: u128::from(n.ip()), prefix: n.prefix() },
        ),
        Err(e) => Err(e.to_string()),
    }
}

/// Relies on ipnetwork::IpNetwork's display: it renders the address, a `/`,
/// and the prefix length, and depends on the network alone.
#[verifier::external_body]
fn net_text_raw(n: &IpNet) -> (r: String)
    requires
        n.wf(),
    ensures
        r@ == net_text_spec(*n),
{
    match *n {
        IpNet::V4 { addr, prefix } => format!(
            "{}",
            ipnetwork::Ipv4Network::new(addr.into(), prefix).unwrap(),
        ),
        IpNet::V6 { addr, prefix } => format!(
            "{}",
            ipnetwork::Ipv6Network::new(addr.into(), prefix).unwrap(),
        ),
    }
}

impl IpNet {
    /// Parses CIDR text into a network. Success and the value returned are
    /// exactly those of the parse; a rejected text yields a parse error
    /// carrying the parser's description.
    pub fn parse(s: &str) -> (r: Result<IpNet, crate::error::AppError>)
        ensures
            (r matches Ok(n) ==> parse_net_spec(s@) == Some(n) && n.wf()),
            (r matches Err(e) ==> parse_net_spec(s@) is None && e matches
                crate::error::AppError::ParseError(_)),
    {
        match parse_net_raw(s) {
            Ok(n) => Ok(n),
            Err(m) => Err(crate::error::AppError::ParseError(m)),
        }
    }

    /// Renders the network in its canonical CIDR text.
    pub fn to_text(&self) -> (r: String)
        requires
            self.wf(),
        ensures
            r@ == net_text_spec(*self),
    {
        net_text_raw(self)
    }
}

} // verus!
