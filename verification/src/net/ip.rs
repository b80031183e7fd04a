//! Filters undesirable ip addresses like 0.0.0.0 or 127.0.0.1
//!
//! An IPv4 address is held as the `u32` whose big-endian bytes are its
//! four octets. An address is global unless it lies in one of the
//! special-purpose ranges:
//!
//! Current network
//!     0.0.0.0 - 0.255.255.255
//!     127.0.0.0 - 127.255.255.255
//!
//! Non routable address ranges:
//!     10.0.0.0 - 10.255.255.255
//!     172.16.0.0 - 172.31.255.255
//!     192.168.0.0 - 192.168.255.255
//!
//! Multicast IP addresses:
//!     224.0.0.0 - 239.255.255.255
//!
//! Carrier-grade NAT deployment
//!     100.64.0.0 - 100.127.255.255
//!
//! Link-local, documentation, benchmarking, protocol-assignment,
//! reserved and broadcast ranges are excluded as well.

use vstd::prelude::*;

verus! {

/// An IP address of either family. An IPv6 address is held as the `u128`
/// whose big-endian bytes are its sixteen octets.
#[derive(Clone, Copy, Debug, PartialEq, Eq, Structural)]
pub enum IpAddress {
    V4(u32),
    V6(u128),
}

/// Octet `i` (0 is the first, most significant) of an IPv4 address.
pub open spec fn octet(ip: u32, i: int) -> int {
    if i == 0 {
        (ip as int) / 0x100_0000
    } else if i == 1 {
        ((ip as int) / 0x1_0000) % 0x100
    } else if i == 2 {
        ((ip as int) / 0x100) % 0x100
    } else {
        (ip as int) % 0x100
    }
}

/// 10.0.0.0/8, 172.16.0.0/12 and 192.168.0.0/16.
pub open spec fn spec_is_private(ip: u32) -> bool {
    ||| octet(ip, 0) == 10
    ||| octet(ip, 0) == 172 && 16 <= octet(ip, 1) <= 31
    ||| octet(ip, 0) == 192 && octet(ip, 1) == 168
}

/// 100.64.0.0/10, shared by carrier-grade NAT.
pub open spec fn spec_is_shared(ip: u32) -> bool {
    octet(ip, 0) == 100 && 64 <= octet(ip, 1) <= 127
}

/// 192.0.2.0/24, 198.51.100.0/24 and 203.0.113.0/24.
pub open spec fn spec_is_documentation(ip: u32) -> bool {
    ||| octet(ip, 0) == 192 && octet(ip, 1) == 0 && octet(ip, 2) == 2
    ||| octet(ip, 0) == 198 && octet(ip, 1) == 51 && octet(ip, 2) == 100
    ||| octet(ip, 0) == 203 && octet(ip, 1) == 0 && octet(ip, 2) == 113
}

/// 192.0.0.0/24, but for 192.0.0.9 and 192.0.0.10, which are globally reachable.
pub open spec fn spec_is_protocol_assignment(ip: u32) -> bool {
    &&& octet(ip, 0) == 192 && octet(ip, 1) == 0 && octet(ip, 2) == 0
    &&& octet(ip, 3) != 9 && octet(ip, 3) != 10
}

/// Whether an IPv4 address is globally routable.
pub open spec fn spec_is_global(ip: u32) -> bool {
    !{
        ||| octet(ip, 0) == 0  // "this network"
        ||| spec_is_private(ip)
        ||| spec_is_shared(ip)
        ||| octet(ip, 0) == 127  // loopback
        ||| octet(ip, 0) == 169 && octet(ip, 1) == 254  // link-local
        ||| spec_is_protocol_assignment(ip)
        ||| spec_is_documentation(ip)
        ||| octet(ip, 0) == 198 && 18 <= octet(ip, 1) <= 19  // benchmarking
        ||| 224 <= octet(ip, 0) <= 239  // multicast
        ||| octet(ip, 0) >= 240  // reserved, and the broadcast address

    }
}

/// The four octets of an IPv4 address, most significant first.
pub fn octets(ip: u32) -> (r: (u8, u8, u8, u8))
    ensures
        r.0 == octet(ip, 0),
        r.1 == octet(ip, 1),
        r.2 == octet(ip, 2),
        r.3 == octet(ip, 3),
{
    ((ip / 0x100_0000) as u8, ((ip / 0x1_0000) % 0x100) as u8, ((ip / 0x100) % 0x100) as u8, (ip
        % 0x100) as u8)
}

/// Whether an IPv4 address is globally routable, that is, outside every
/// special-purpose range listed above.
pub fn is_global(ip: u32) -> (r: bool)
    ensures
        r == spec_is_global(ip),
{
    let (a, b, c, d) = octets(ip);
    let this_network = a == 0;
    let private = a == 10 || (a == 172 && 16 <= b && b <= 31) || (a == 192 && b == 168);
    let shared = a == 100 && 64 <= b && b <= 127;
    let loopback = a == 127;
    let link_local = a == 169 && b == 254;
    let protocol_assignment = a == 192 && b == 0 && c == 0 && d != 9 && d != 10;
    let documentation = (a == 192 && b == 0 && c == 2) || (a == 198 && b == 51 && c == 100) || (a
        == 203 && b == 0 && c == 113);
    let benchmarking = a == 198 && 18 <= b && b <= 19;
    let multicast = 224 <= a && a <= 239;
    let reserved = a >= 240;
    !(this_network || private || shared || loopback || link_local || protocol_assignment
        || documentation || benchmarking || multicast || reserved)
}

/// Every range that the module documentation lists is filtered out.
pub proof fn law_listed_ranges_are_not_global(ip: u32)
    ensures
        octet(ip, 0) == 0 ==> !spec_is_global(ip),
        octet(ip, 0) == 127 ==> !spec_is_global(ip),
        octet(ip, 0) == 10 ==> !spec_is_global(ip),
        octet(ip, 0) == 172 && 16 <= octet(ip, 1) <= 31 ==> !spec_is_global(ip),
        octet(ip, 0) == 192 && octet(ip, 1) == 168 ==> !spec_is_global(ip),
        224 <= octet(ip, 0) <= 239 ==> !spec_is_global(ip),
        octet(ip, 0) == 100 && 64 <= octet(ip, 1) <= 127 ==> !spec_is_global(ip),
{
}

/// Outside the listed ranges every address is global: no address whose first
/// octet starts none of the special-purpose ranges is filtered out.
pub proof fn law_other_first_octets_are_global(ip: u32)
    requires
        octet(ip, 0) < 224,
        octet(ip, 0) != 0 && octet(ip, 0) != 10 && octet(ip, 0) != 100 && octet(ip, 0) != 127,
        octet(ip, 0) != 169 && octet(ip, 0) != 172 && octet(ip, 0) != 192,
        octet(ip, 0) != 198 && octet(ip, 0) != 203,
    ensures
        spec_is_global(ip),
{
}

/// Within the first octets that some range starts with, only the listed
/// ranges are filtered out; the rest of each such first octet is global.
pub proof fn law_rest_of_shared_first_octets_is_global(ip: u32)
    ensures
        octet(ip, 0) == 192 && octet(ip, 1) != 0 && octet(ip, 1) != 168 ==> spec_is_global(ip),
        octet(ip, 0) == 192 && octet(ip, 1) == 0 && octet(ip, 2) != 0 && octet(ip, 2) != 2
            ==> spec_is_global(ip),
        octet(ip, 0) == 192 && octet(ip, 1) == 0 && octet(ip, 2) == 0 && (octet(ip, 3) == 9
            || octet(ip, 3) == 10) ==> spec_is_global(ip),
        octet(ip, 0) == 172 && (octet(ip, 1) < 16 || octet(ip, 1) > 31) ==> spec_is_global(ip),
        octet(ip, 0) == 100 && (octet(ip, 1) < 64 || octet(ip, 1) > 127) ==> spec_is_global(ip),
        octet(ip, 0) == 169 && octet(ip, 1) != 254 ==> spec_is_global(ip),
        octet(ip, 0) == 198 && octet(ip, 1) != 18 && octet(ip, 1) != 19 && octet(ip, 1) != 51
            ==> spec_is_global(ip),
        octet(ip, 0) == 198 && octet(ip, 1) == 51 && octet(ip, 2) != 100 ==> spec_is_global(ip),
        octet(ip, 0) == 203 && (octet(ip, 1) != 0 || octet(ip, 2) != 113) ==> spec_is_global(ip),
{
}

/// An IPv4 address is its own IPv4 address; an IPv4-mapped IPv6 address
/// `::ffff:a.b.c.d` stands for `a.b.c.d`; an IPv6 address whose upper 96
/// bits are not `::ffff` stands for none.
pub proof fn law_ipv4_of_addresses(a: u32, b: u128)
    ensures
        spec_to_ipv4(IpAddress::V4(a)) == Ok::<u32, AddressError>(a),
        b < 0x1_0000_0000 ==> spec_to_ipv4(IpAddress::V6((0xffff_0000_0000 + b) as u128))
            == Ok::<u32, AddressError>(b as u32),
        (b as int) / 0x1_0000_0000 != 0xffff ==> spec_to_ipv4(IpAddress::V6(b)) is Err,
{
}

/// Why an address could not be taken as IPv4.
#[derive(Clone, Copy, Debug, PartialEq, Eq, Structural)]
pub enum AddressError {
    /// An IPv6 address that does not map an IPv4 address.
    Ipv6,
}

/// The IPv4 address an address stands for: itself, or the address that an
/// IPv4-mapped IPv6 address (`::ffff:a.b.c.d`) carries.
pub open spec fn spec_to_ipv4(ip: IpAddress) -> Result<u32, AddressError> {
    match ip {
        IpAddress::V4(a) => Ok(a),
        IpAddress::V6(b) => if (b as int) / 0x1_0000_0000 == 0xffff {
            Ok(((b as int) % 0x1_0000_0000) as u32)
        } else {
            Err(AddressError::Ipv6)
        },
    }
}

/// Converts an address to IPv4, canonicalizing IPv4-mapped IPv6 addresses.
pub fn to_ipv4(ip: IpAddress) -> (r: Result<u32, AddressError>)
    ensures
        r == spec_to_ipv4(ip),
{
    match ip {
        IpAddress::V4(a) => Ok(a),
        IpAddress::V6(b) => {
            if b / 0x1_0000_0000 == 0xffff {
                Ok((b % 0x1_0000_0000) as u32)
            } else {
                Err(AddressError::Ipv6)
            }
        },
    }
}

} // verus!
