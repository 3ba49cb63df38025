use vstd::prelude::*;
use crate::models::IpVersion;
use crate::net::IpNet;

verus! {

/// The query parameters of the listing endpoint: the version filter.
#[derive(Debug, PartialEq, Eq, Structural)]
pub struct BlocklistIpVersion {
    pub ip_version: IpVersion,
}

/// The body of the add endpoint: the network to block.
#[derive(Debug, PartialEq, Eq, Structural)]
pub struct BlocklistIp {
    pub ip: IpNet,
}

} // verus!
