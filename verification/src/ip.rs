//! A plain-value model of resolved IP addresses, and the globality test that
//! the outbound-fetch guard applies to them.
//!
//! The embedding program resolves a host name and hands the resulting
//! addresses over in this form; the decision of which addresses count as
//! globally routable is made and verified here.

use vstd::prelude::*;

verus! {

/// A resolved address: the four octets of an IPv4 address or the eight
/// 16-bit segments of an IPv6 address.
#[derive(Clone, Copy, PartialEq, Eq, Structural, Debug)]
pub enum IpAddress {
    V4 { a: u8, b: u8, c: u8, d: u8 },
    V6 { s0: u16, s1: u16, s2: u16, s3: u16, s4: u16, s5: u16, s6: u16, s7: u16 },
}

/// An IPv4 address that is not globally routable: loopback, private,
/// link-local, multicast, or unspecified.
pub open spec fn v4_non_global(a: u8, b: u8, c: u8, d: u8) -> bool {
    ||| a == 127  // loopback
    ||| a == 10  // private
    ||| (a == 172 && 16 <= b && b <= 31)  // private
    ||| (a == 192 && b == 168)  // private
    ||| (a == 169 && b == 254)  // link-local
    ||| (224 <= a && a <= 239)  // multicast
    ||| (a == 0 && b == 0 && c == 0 && d == 0)  // unspecified
}

/// An IPv6 address that is not globally routable: loopback, unique-local,
/// link-local, multicast, or unspecified. The first-segment ranges stand for
/// the prefixes `fc00::/7`, `fe80::/10` and `ff00::/8`.
pub open spec fn v6_non_global(
    s0: u16,
    s1: u16,
    s2: u16,
    s3: u16,
    s4: u16,
    s5: u16,
    s6: u16,
    s7: u16,
) -> bool {
    ||| (s0 == 0 && s1 == 0 && s2 == 0 && s3 == 0 && s4 == 0 && s5 == 0 && s6 == 0 && (s7 == 0
        || s7 == 1))  // unspecified or loopback
    ||| (0xfc00 <= s0 && s0 <= 0xfdff)  // unique-local
    ||| (0xfe80 <= s0 && s0 <= 0xfebf)  // link-local
    ||| (0xff00 <= s0)  // multicast
}

/// Whether the address is globally routable.
pub open spec fn ip_global(ip: IpAddress) -> bool {
    match ip {
        IpAddress::V4 { a, b, c, d } => !v4_non_global(a, b, c, d),
        IpAddress::V6 { s0, s1, s2, s3, s4, s5, s6, s7 } => !v6_non_global(
            s0,
            s1,
            s2,
            s3,
            s4,
            s5,
            s6,
            s7,
        ),
    }
}

/// Decide whether a resolved address is globally routable.
pub fn is_global(ip: &IpAddress) -> (r: bool)
    ensures
        r == ip_global(*ip),
{
    match *ip {
        IpAddress::V4 { a, b, c, d } => {
            !(a == 127 || a == 10 || (a == 172 && 16 <= b && b <= 31) || (a == 192 && b == 168) || (
            a == 169 && b == 254) || (224 <= a && a <= 239) || (a == 0 && b == 0 && c == 0 && d
                == 0))
        },
        IpAddress::V6 { s0, s1, s2, s3, s4, s5, s6, s7 } => {
            !((s0 == 0 && s1 == 0 && s2 == 0 && s3 == 0 && s4 == 0 && s5 == 0 && s6 == 0 && (s7
                == 0 || s7 == 1)) || (0xfc00 <= s0 && s0 <= 0xfdff) || (0xfe80 <= s0 && s0
                <= 0xfebf) || 0xff00 <= s0)
        },
    }
}

/// Some resolved address in the list is not globally routable.
pub open spec fn any_non_global(addrs: Seq<IpAddress>) -> bool {
    exists|i: int| 0 <= i < addrs.len() && !ip_global(addrs[i])
}

/// Scan a resolved address list for a non-global address.
pub fn has_non_global(addrs: &Vec<IpAddress>) -> (r: bool)
    ensures
        r == any_non_global(addrs@),
{
    let mut i: usize = 0;
    while i < addrs.len()
        invariant
            0 <= i <= addrs@.len(),
            forall|k: int| 0 <= k < i ==> ip_global(addrs@[k]),
        decreases addrs@.len() - i,
    {
        if !is_global(&addrs[i]) {
            return true;
        }
        i += 1;
    }
    false
}

} // verus!
