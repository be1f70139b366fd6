//! Network addresses as plain octets, in the order they travel on the wire.

use vstd::prelude::*;

verus! {

/// An IPv4 address: four octets, most significant first.
#[derive(Debug, Clone, Copy, PartialEq, Eq, Hash)]
pub struct Ipv4Addr {
    pub octets: [u8; 4],
}

/// An IPv6 address: sixteen octets, most significant first.
#[derive(Debug, Clone, Copy, PartialEq, Eq, Hash)]
pub struct Ipv6Addr {
    pub octets: [u8; 16],
}

/// Either kind of IP address.
#[derive(Debug, Clone, Copy, PartialEq, Eq, Hash)]
pub enum IpAddr {
    V4(Ipv4Addr),
    V6(Ipv6Addr),
}

/// A 48-bit MAC address (EUI-48).
#[derive(Debug, Clone, Copy, PartialEq, Eq, Hash)]
pub struct MacAddr6 {
    pub octets: [u8; 6],
}

/// A 64-bit MAC address (EUI-64).
#[derive(Debug, Clone, Copy, PartialEq, Eq, Hash)]
pub struct MacAddr8 {
    pub octets: [u8; 8],
}

/// The IPv4 address made of the first four bytes of `b`.
pub open spec fn ipv4_of(b: Seq<u8>) -> Ipv4Addr
    recommends
        b.len() >= 4,
{
    Ipv4Addr { octets: [b[0], b[1], b[2], b[3]] }
}

/// The IPv6 address made of the first sixteen bytes of `b`.
pub open spec fn ipv6_of(b: Seq<u8>) -> Ipv6Addr
    recommends
        b.len() >= 16,
{
    Ipv6Addr {
        octets: [
            b[0],
            b[1],
            b[2],
            b[3],
            b[4],
            b[5],
            b[6],
            b[7],
            b[8],
            b[9],
            b[10],
            b[11],
            b[12],
            b[13],
            b[14],
            b[15],
        ],
    }
}

/// The EUI-48 address made of the first six bytes of `b`.
pub open spec fn mac6_of(b: Seq<u8>) -> MacAddr6
    recommends
        b.len() >= 6,
{
    MacAddr6 { octets: [b[0], b[1], b[2], b[3], b[4], b[5]] }
}

/// The EUI-64 address made of the first eight bytes of `b`.
pub open spec fn mac8_of(b: Seq<u8>) -> MacAddr8
    recommends
        b.len() >= 8,
{
    MacAddr8 { octets: [b[0], b[1], b[2], b[3], b[4], b[5], b[6], b[7]] }
}

impl Ipv4Addr {
    pub fn new(a: u8, b: u8, c: u8, d: u8) -> (r: Self)
        ensures
            r == (Ipv4Addr { octets: [a, b, c, d] }),
    {
        Ipv4Addr { octets: [a, b, c, d] }
    }

    pub open spec fn spec_localhost() -> Self {
        Ipv4Addr { octets: [127, 0, 0, 1] }
    }

    /// The loopback address `127.0.0.1`.
    #[verifier::when_used_as_spec(spec_localhost)]
    pub fn localhost() -> (r: Self)
        ensures
            r == Self::spec_localhost(),
    {
        Ipv4Addr { octets: [127, 0, 0, 1] }
    }

    /// Reads an address from the first four bytes of `input`.
    pub fn from_slice(input: &[u8]) -> (r: Self)
        requires
            input@.len() >= 4,
        ensures
            r == ipv4_of(input@),
    {
        Ipv4Addr { octets: [input[0], input[1], input[2], input[3]] }
    }
}

impl Ipv6Addr {
    /// Reads an address from the first sixteen bytes of `input`.
    pub fn from_slice(input: &[u8]) -> (r: Self)
        requires
            input@.len() >= 16,
        ensures
            r == ipv6_of(input@),
    {
        Ipv6Addr {
            octets: [
                input[0],
                input[1],
                input[2],
                input[3],
                input[4],
                input[5],
                input[6],
                input[7],
                input[8],
                input[9],
                input[10],
                input[11],
                input[12],
                input[13],
                input[14],
                input[15],
            ],
        }
    }
}

impl MacAddr6 {
    pub fn new(a: u8, b: u8, c: u8, d: u8, e: u8, f: u8) -> (r: Self)
        ensures
            r == (MacAddr6 { octets: [a, b, c, d, e, f] }),
    {
        MacAddr6 { octets: [a, b, c, d, e, f] }
    }

    pub open spec fn spec_broadcast() -> Self {
        MacAddr6 { octets: [0xff, 0xff, 0xff, 0xff, 0xff, 0xff] }
    }

    /// The broadcast address `FF:FF:FF:FF:FF:FF`.
    #[verifier::when_used_as_spec(spec_broadcast)]
    pub fn broadcast() -> (r: Self)
        ensures
            r == Self::spec_broadcast(),
    {
        MacAddr6 { octets: [0xff, 0xff, 0xff, 0xff, 0xff, 0xff] }
    }
}

impl MacAddr8 {
    pub fn new(a: u8, b: u8, c: u8, d: u8, e: u8, f: u8, g: u8, h: u8) -> (r: Self)
        ensures
            r == (MacAddr8 { octets: [a, b, c, d, e, f, g, h] }),
    {
        MacAddr8 { octets: [a, b, c, d, e, f, g, h] }
    }
}

} // verus!
