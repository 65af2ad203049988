//! Address classification for the IP location lookup, and its plain request and error
//! bodies.

use vstd::prelude::*;

verus! {

/// A failed location lookup.
#[derive(Debug, Clone)]
pub struct IpLocationError {
    pub error: String,
}

/// A request to locate several addresses.
#[derive(Debug, Clone)]
pub struct BulkIpRequest {
    pub ips: Vec<String>,
}

/// Whether an IPv4 address is local: loopback (127.0.0.0/8), private (10.0.0.0/8,
/// 172.16.0.0/12, 192.168.0.0/16) or link-local (169.254.0.0/16), as
/// `Ipv4Addr::is_loopback`, `is_private` and `is_link_local` define them.
pub open spec fn local_v4(o: Seq<u8>) -> bool {
    ||| o[0] == 127
    ||| o[0] == 10
    ||| (o[0] == 172 && 16 <= o[1] && o[1] < 32)
    ||| (o[0] == 192 && o[1] == 168)
    ||| (o[0] == 169 && o[1] == 254)
}

/// Whether an IPv4 address is local.
pub fn is_private_ipv4(octets: [u8; 4]) -> (r: bool)
    ensures
        r == local_v4(octets@),
{
    octets[0] == 127 || octets[0] == 10 || (octets[0] == 172 && 16 <= octets[1] && octets[1] < 32) || (octets[0]
        == 192 && octets[1] == 168) || (octets[0] == 169 && octets[1] == 254)
}

/// Whether an IPv6 address is a unicast link-local one (fe80::/10).
pub open spec fn link_local_v6(o: Seq<u8>) -> bool {
    o[0] == 0xfe && (o[1] & 0xc0) == 0x80
}

/// Whether an IPv6 address is the loopback address `::1`.
pub open spec fn loopback_v6(o: Seq<u8>) -> bool {
    (forall|i: int| 0 <= i < 15 ==> o[i] == 0) && o[15] == 1
}

/// Whether an IPv6 address is a unicast link-local one.
pub fn is_unicast_link_local_ipv6(octets: [u8; 16]) -> (r: bool)
    ensures
        r == link_local_v6(octets@),
{
    octets[0] == 0xfe && (octets[1] & 0xc0) == 0x80
}

/// Whether an IPv6 address is local: loopback or unicast link-local.
pub fn is_private_ipv6(octets: [u8; 16]) -> (r: bool)
    ensures
        r == (loopback_v6(octets@) || link_local_v6(octets@)),
{
    let mut i: usize = 0;
    let mut zeros = true;
    while i < 15
        invariant
            i <= 15,
            octets@.len() == 16,
            zeros == (forall|j: int| 0 <= j < i ==> octets@[j] == 0),
        decreases 15 - i,
    {
        if octets[i] != 0 {
            zeros = false;
        }
        i = i + 1;
    }
    (zeros && octets[15] == 1) || is_unicast_link_local_ipv6(octets)
}

} // verus!
