//! Internet addresses as the link configuration handles them, and their
//! wire encoding in netlink attributes.
use vstd::prelude::*;

verus! {

/// Address family `AF_UNSPEC` of the socket API.
pub const AF_UNSPEC: u8 = 0;

/// Address family `AF_INET` (IPv4) of the socket API.
pub const AF_INET: u8 = 2;

/// Address family `AF_INET6` (IPv6) of the socket API.
pub const AF_INET6: u8 = 10;

/// An IPv4 or IPv6 address: four octets, or eight 16-bit segments in host order.
#[derive(Clone, Copy, Debug)]
pub enum IpAddr {
    V4([u8; 4]),
    V6([u16; 8]),
}

/// An address that failed to parse.
#[derive(Clone, Copy, Debug)]
pub struct AddrParseError;

/// A socket address: an IP address and a port in host order.
#[derive(Clone, Copy, Debug)]
pub enum SocketAddr {
    V4([u8; 4], u16),
    V6([u16; 8], u16),
}

/// The byte `k` (0 <= k < 16) of the network-order form of eight 16-bit segments.
pub open spec fn segment_byte(segments: Seq<u16>, k: int) -> u8 {
    if k % 2 == 0 {
        (segments[k / 2] / 256) as u8
    } else {
        (segments[k / 2] % 256) as u8
    }
}

/// The sixteen network-order bytes of an IPv6 address given by segments.
pub open spec fn v6_bytes(segments: Seq<u16>) -> Seq<u8> {
    Seq::new(16, |k: int| segment_byte(segments, k))
}

impl IpAddr {
    pub open spec fn spec_is_ipv6(&self) -> bool {
        *self is V6
    }

    /// The address in network byte order: the payload of an address attribute.
    pub open spec fn octets(&self) -> Seq<u8> {
        match *self {
            IpAddr::V4(o) => o@,
            IpAddr::V6(s) => v6_bytes(s@),
        }
    }

    /// The socket-API address family of the address.
    pub open spec fn spec_family(&self) -> u8 {
        match *self {
            IpAddr::V4(_) => AF_INET,
            IpAddr::V6(_) => AF_INET6,
        }
    }

    #[verifier::when_used_as_spec(spec_is_ipv6)]
    pub fn is_ipv6(&self) -> (r: bool)
        ensures
            r == self.spec_is_ipv6(),
    {
        match self {
            IpAddr::V4(_) => false,
            IpAddr::V6(_) => true,
        }
    }

    pub fn is_ipv4(&self) -> (r: bool)
        ensures
            r == !self.spec_is_ipv6(),
    {
        !self.is_ipv6()
    }

    #[verifier::when_used_as_spec(spec_family)]
    pub fn family(&self) -> (r: u8)
        ensures
            r == self.spec_family(),
    {
        match self {
            IpAddr::V4(_) => AF_INET,
            IpAddr::V6(_) => AF_INET6,
        }
    }

    /// The network-order bytes of the address, as an address attribute carries them.
    pub fn to_bytes(&self) -> (r: Vec<u8>)
        ensures
            r@ == self.octets(),
            r@.len() == if self.spec_is_ipv6() { 16int } else { 4int },
    {
        broadcast use vstd::array::group_array_axioms;
        match self {
            IpAddr::V4(o) => {
                let v = vstd::slice::slice_to_vec(o.as_slice());
                assert(v@ =~= o@);
                v
            },
            IpAddr::V6(s) => {
                let mut v: Vec<u8> = Vec::new();
                let mut i: usize = 0;
                while i < 8
                    invariant
                        i <= 8,
                        s@.len() == 8,
                        v@.len() == 2 * i,
                        forall|k: int| 0 <= k < 2 * i ==> v@[k] == segment_byte(s@, k),
                    decreases 8 - i,
                {
                    let seg: u16 = s[i];
                    let hi: u8 = (seg / 256) as u8;
                    let lo: u8 = (seg % 256) as u8;
                    v.push(hi);
                    v.push(lo);
                    proof {
                        assert((2 * i as int) % 2 == 0);
                        assert((2 * i as int) / 2 == i as int);
                        assert((2 * i as int + 1) % 2 == 1);
                        assert((2 * i as int + 1) / 2 == i as int);
                    }
                    i = i + 1;
                }
                assert(v@ =~= v6_bytes(s@));
                v
            },
        }
    }
}

} // verus!
