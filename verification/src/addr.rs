//! Plain-value model of socket addresses.
//!
//! The transaction layer only carries addresses from configuration to the
//! transport setup; it reads nothing but their raw bits, so an address is
//! an IP number (32 bits, or two 64-bit halves) and a port.

use vstd::prelude::*;

verus! {

/// An IP address as raw bits: 32 for version four, 128 (high and low
/// halves, big-endian order) for version six.
#[derive(Clone, Copy, Debug, PartialEq, Eq, Structural)]
pub enum IpAddress {
    V4 { bits: u32 },
    V6 { hi: u64, lo: u64 },
}

/// A socket address: an IP address and a port.
#[derive(Clone, Copy, Debug, PartialEq, Eq, Structural)]
pub struct SockAddr {
    pub ip: IpAddress,
    pub port: u16,
}

/// The bits of the well-known mDNS IPv4 group, 224.0.0.251.
pub const MDNS_V4_GROUP_BITS: u32 = 0xE000_00FB;

/// The high half of the well-known mDNS IPv6 group, FF02::FB.
pub const MDNS_V6_GROUP_HI: u64 = 0xFF02_0000_0000_0000;

/// The low half of the well-known mDNS IPv6 group, FF02::FB.
pub const MDNS_V6_GROUP_LO: u64 = 0xFB;

/// The mDNS port.
pub const MDNS_PORT: u16 = 5353;

/// The well-known IPv4 multicast group and port for mDNS.
pub open spec fn spec_mdns_ipv4_group() -> SockAddr {
    SockAddr { ip: IpAddress::V4 { bits: MDNS_V4_GROUP_BITS }, port: MDNS_PORT }
}

/// The well-known IPv6 multicast group and port for mDNS.
pub open spec fn spec_mdns_ipv6_group() -> SockAddr {
    SockAddr { ip: IpAddress::V6 { hi: MDNS_V6_GROUP_HI, lo: MDNS_V6_GROUP_LO }, port: MDNS_PORT }
}

/// The well-known IPv4 multicast group and port for mDNS, 224.0.0.251:5353.
pub fn mdns_ipv4_group() -> (r: SockAddr)
    ensures
        r == spec_mdns_ipv4_group(),
{
    SockAddr { ip: IpAddress::V4 { bits: MDNS_V4_GROUP_BITS }, port: MDNS_PORT }
}

/// The well-known IPv6 multicast group and port for mDNS, [FF02::FB]:5353.
pub fn mdns_ipv6_group() -> (r: SockAddr)
    ensures
        r == spec_mdns_ipv6_group(),
{
    SockAddr { ip: IpAddress::V6 { hi: MDNS_V6_GROUP_HI, lo: MDNS_V6_GROUP_LO }, port: MDNS_PORT }
}

} // verus!
