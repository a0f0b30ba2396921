//! IP address classification for SSRF protection.
use vstd::prelude::*;

verus! {

/// An IP address: four octets, or eight 16-bit segments.
#[derive(Debug, Clone, Copy)]
pub enum IpAddress {
    V4([u8; 4]),
    V6([u16; 8]),
}

/// 127.0.0.0/8, 10.0.0.0/8, 172.16.0.0/12, 192.168.0.0/16, 169.254.0.0/16,
/// 0.0.0.0, 255.255.255.255, the documentation ranges 192.0.2.0/24,
/// 198.51.100.0/24, 203.0.113.0/24, and CGNAT 100.64.0.0/10.
pub open spec fn spec_is_private_v4(o: Seq<u8>) -> bool {
    let a = o[0];
    let b = o[1];
    let c = o[2];
    let d = o[3];
    ||| a == 127
    ||| a == 10
    ||| (a == 172 && 16 <= b <= 31)
    ||| (a == 192 && b == 168)
    ||| (a == 169 && b == 254)
    ||| (a == 0 && b == 0 && c == 0 && d == 0)
    ||| (a == 255 && b == 255 && c == 255 && d == 255)
    ||| (a == 192 && b == 0 && c == 2)
    ||| (a == 198 && b == 51 && c == 100)
    ||| (a == 203 && b == 0 && c == 113)
    ||| (a == 100 && 64 <= b <= 127)
}

/// The IPv4 address embedded in an IPv4-mapped IPv6 address `::ffff:a.b.c.d`.
pub open spec fn spec_v4_mapped(s: Seq<u16>) -> Option<Seq<u8>> {
    if s[0] == 0 && s[1] == 0 && s[2] == 0 && s[3] == 0 && s[4] == 0 && s[5] == 0xffff {
        Some(seq![(s[6] / 256) as u8, (s[6] % 256) as u8, (s[7] / 256) as u8, (s[7] % 256) as u8])
    } else {
        None
    }
}

/// `::1`, `::`, unique-local `fc00::/7`, link-local `fe80::/10`, and
/// IPv4-mapped addresses of private IPv4 addresses.
pub open spec fn spec_is_private_v6(s: Seq<u16>) -> bool {
    let zero_prefix = s[0] == 0 && s[1] == 0 && s[2] == 0 && s[3] == 0 && s[4] == 0 && s[5] == 0
        && s[6] == 0;
    ||| (zero_prefix && s[7] == 1)
    ||| (zero_prefix && s[7] == 0)
    ||| (0xfc00 <= s[0] <= 0xfdff)
    ||| (0xfe80 <= s[0] <= 0xfebf)
    ||| (match spec_v4_mapped(s) {
        Some(v4) => spec_is_private_v4(v4),
        None => false,
    })
}

/// Whether an address is private, loopback, link-local or otherwise reserved.
pub open spec fn spec_is_private_ip(ip: IpAddress) -> bool {
    match ip {
        IpAddress::V4(o) => spec_is_private_v4(o@),
        IpAddress::V6(s) => spec_is_private_v6(s@),
    }
}

fn is_private_v4(o: [u8; 4]) -> (r: bool)
    ensures
        r == spec_is_private_v4(o@),
{
    let a = o[0];
    let b = o[1];
    let c = o[2];
    let d = o[3];
    let cgnat = a == 100 && (b & 0xC0) == 64;
    assert(((b & 0xC0) == 64) == (64 <= b && b <= 127)) by (bit_vector);
    a == 127 || a == 10 || (a == 172 && 16 <= b && b <= 31) || (a == 192 && b == 168) || (a == 169
        && b == 254) || (a == 0 && b == 0 && c == 0 && d == 0) || (a == 255 && b == 255 && c == 255
        && d == 255) || (a == 192 && b == 0 && c == 2) || (a == 198 && b == 51 && c == 100) || (a
        == 203 && b == 0 && c == 113) || cgnat
}

fn is_private_v6(s: [u16; 8]) -> (r: bool)
    ensures
        r == spec_is_private_v6(s@),
{
    let s0 = s[0];
    let zero_prefix = s[0] == 0 && s[1] == 0 && s[2] == 0 && s[3] == 0 && s[4] == 0 && s[5] == 0
        && s[6] == 0;
    let loopback = zero_prefix && s[7] == 1;
    let unspecified = zero_prefix && s[7] == 0;
    let unique_local = (s0 & 0xfe00) == 0xfc00;
    let link_local = (s0 & 0xffc0) == 0xfe80;
    assert(((s0 & 0xfe00) == 0xfc00) == (0xfc00 <= s0 && s0 <= 0xfdff)) by (bit_vector);
    assert(((s0 & 0xffc0) == 0xfe80) == (0xfe80 <= s0 && s0 <= 0xfebf)) by (bit_vector);
    if loopback || unspecified || unique_local || link_local {
        return true;
    }
    if s[0] == 0 && s[1] == 0 && s[2] == 0 && s[3] == 0 && s[4] == 0 && s[5] == 0xffff {
        let x = s[6];
        let y = s[7];
        let o: [u8; 4] = [(x / 256) as u8, (x % 256) as u8, (y / 256) as u8, (y % 256) as u8];
        assert(o@ =~= spec_v4_mapped(s@)->0);
        is_private_v4(o)
    } else {
        false
    }
}

/// Check if an IP address belongs to a private, loopback, link-local,
/// or otherwise reserved range that should not be reachable via webhooks.
pub fn is_private_ip(ip: IpAddress) -> (r: bool)
    ensures
        r == spec_is_private_ip(ip),
{
    match ip {
        IpAddress::V4(o) => is_private_v4(o),
        IpAddress::V6(s) => is_private_v6(s),
    }
}

/// The resolved addresses that are not private, in order.
pub open spec fn spec_public_only(addrs: Seq<(IpAddress, u16)>) -> Seq<(IpAddress, u16)>
    decreases addrs.len(),
{
    if addrs.len() == 0 {
        Seq::empty()
    } else {
        let rest = spec_public_only(addrs.drop_last());
        if spec_is_private_ip(addrs.last().0) {
            rest
        } else {
            rest.push(addrs.last())
        }
    }
}

/// Why a name resolution was refused.
#[derive(Debug, Clone, Copy, PartialEq, Eq, Structural)]
pub enum ResolveError {
    /// The name resolved to no address at all.
    NoAddresses,
    /// Every address the name resolved to is private/reserved.
    AllPrivate,
}

/// A DNS resolver policy that drops private/reserved addresses from the
/// results of name resolution, so that outbound HTTP connections never
/// reach internal services.
pub struct SafeDnsResolver;

impl SafeDnsResolver {
    pub fn new() -> (r: Self) {
        SafeDnsResolver
    }

    /// What the resolver hands to the HTTP client, given what the system
    /// resolver returned for a name.
    pub open spec fn spec_filter(addrs: Seq<(IpAddress, u16)>) -> Result<Seq<(IpAddress, u16)>, ResolveError> {
        if addrs.len() == 0 {
            Err(ResolveError::NoAddresses)
        } else if spec_public_only(addrs).len() == 0 {
            Err(ResolveError::AllPrivate)
        } else {
            Ok(spec_public_only(addrs))
        }
    }

    /// Keep only the public addresses; refuse when there are none.
    pub fn filter(&self, addrs: &Vec<(IpAddress, u16)>) -> (r: Result<Vec<(IpAddress, u16)>, ResolveError>)
        ensures
            match Self::spec_filter(addrs@) {
                Ok(v) => r is Ok && r->Ok_0@ == v,
                Err(e) => r == Err::<Vec<(IpAddress, u16)>, ResolveError>(e),
            },
    {
        if addrs.len() == 0 {
            return Err(ResolveError::NoAddresses);
        }
        let mut out: Vec<(IpAddress, u16)> = Vec::new();
        let mut i: usize = 0;
        assert(addrs@.subrange(0, 0) =~= Seq::<(IpAddress, u16)>::empty());
        while i < addrs.len()
            invariant
                i <= addrs@.len(),
                out@ == spec_public_only(addrs@.subrange(0, i as int)),
            decreases addrs@.len() - i,
        {
            let a = addrs[i];
            proof {
                assert(addrs@.subrange(0, i + 1).drop_last() =~= addrs@.subrange(0, i as int));
            }
            if !is_private_ip(a.0) {
                out.push(a);
            }
            i = i + 1;
        }
        assert(addrs@.subrange(0, addrs@.len() as int) =~= addrs@);
        if out.len() == 0 {
            return Err(ResolveError::AllPrivate);
        }
        Ok(out)
    }
}

impl Default for SafeDnsResolver {
    fn default() -> (r: Self) {
        Self::new()
    }
}

} // verus!
