use vstd::prelude::*;

verus! {

/// An IPv4 address, held as its four octets in network order.
#[derive(Debug, Clone, Copy, PartialEq, Eq, Structural)]
pub struct Ipv4Addr(pub u8, pub u8, pub u8, pub u8);

/// An IPv6 address, held as its eight 16-bit segments in network order.
#[derive(Debug, Clone, Copy, PartialEq, Eq, Structural)]
pub struct Ipv6Addr(pub u16, pub u16, pub u16, pub u16, pub u16, pub u16, pub u16, pub u16);

/// An IP address of either family.
#[derive(Debug, Clone, Copy, PartialEq, Eq, Structural)]
pub enum IpAddr {
    V4(Ipv4Addr),
    V6(Ipv6Addr),
}

impl Ipv4Addr {
    /// The address `a.b.c.d`.
    pub fn new(a: u8, b: u8, c: u8, d: u8) -> (addr: Ipv4Addr)
        ensures
            addr == Ipv4Addr(a, b, c, d),
    {
        Ipv4Addr(a, b, c, d)
    }

    /// The address whose octets, most significant first, are `o`.
    pub fn from_octets(o: [u8; 4]) -> (addr: Ipv4Addr)
        ensures
            addr == Ipv4Addr(o@[0], o@[1], o@[2], o@[3]),
    {
        Ipv4Addr(o[0], o[1], o[2], o[3])
    }

    /// The four octets, most significant first.
    pub fn octets(&self) -> (o: [u8; 4])
        ensures
            o@ == seq![self.0, self.1, self.2, self.3],
    {
        [self.0, self.1, self.2, self.3]
    }

    /// `127.0.0.0/8`.
    pub open spec fn spec_is_loopback(&self) -> bool {
        self.0 == 127
    }

    /// `10.0.0.0/8`, `172.16.0.0/12` and `192.168.0.0/16`.
    pub open spec fn spec_is_private(&self) -> bool {
        ||| self.0 == 10
        ||| self.0 == 172 && 16 <= self.1 <= 31
        ||| self.0 == 192 && self.1 == 168
    }

    /// `169.254.0.0/16`.
    pub open spec fn spec_is_link_local(&self) -> bool {
        self.0 == 169 && self.1 == 254
    }

    /// `0.0.0.0`.
    pub open spec fn spec_is_unspecified(&self) -> bool {
        self.0 == 0 && self.1 == 0 && self.2 == 0 && self.3 == 0
    }

    #[verifier::when_used_as_spec(spec_is_loopback)]
    pub fn is_loopback(&self) -> (r: bool)
        ensures
            r == self.spec_is_loopback(),
    {
        self.0 == 127
    }

    #[verifier::when_used_as_spec(spec_is_private)]
    pub fn is_private(&self) -> (r: bool)
        ensures
            r == self.spec_is_private(),
    {
        self.0 == 10 || (self.0 == 172 && 16 <= self.1 && self.1 <= 31) || (self.0 == 192
            && self.1 == 168)
    }

    #[verifier::when_used_as_spec(spec_is_link_local)]
    pub fn is_link_local(&self) -> (r: bool)
        ensures
            r == self.spec_is_link_local(),
    {
        self.0 == 169 && self.1 == 254
    }

    #[verifier::when_used_as_spec(spec_is_unspecified)]
    pub fn is_unspecified(&self) -> (r: bool)
        ensures
            r == self.spec_is_unspecified(),
    {
        self.0 == 0 && self.1 == 0 && self.2 == 0 && self.3 == 0
    }
}

impl Ipv6Addr {
    /// The address with the given eight segments.
    pub fn new(a: u16, b: u16, c: u16, d: u16, e: u16, f: u16, g: u16, h: u16) -> (addr: Ipv6Addr)
        ensures
            addr == Ipv6Addr(a, b, c, d, e, f, g, h),
    {
        Ipv6Addr(a, b, c, d, e, f, g, h)
    }

    /// `::1`.
    pub fn localhost() -> (addr: Ipv6Addr)
        ensures
            addr == Ipv6Addr(0, 0, 0, 0, 0, 0, 0, 1),
    {
        Ipv6Addr(0, 0, 0, 0, 0, 0, 0, 1)
    }

    /// `::`.
    pub fn unspecified() -> (addr: Ipv6Addr)
        ensures
            addr == Ipv6Addr(0, 0, 0, 0, 0, 0, 0, 0),
    {
        Ipv6Addr(0, 0, 0, 0, 0, 0, 0, 0)
    }

    /// The address whose segments, most significant first, are `s`.
    pub fn from_segments(s: [u16; 8]) -> (addr: Ipv6Addr)
        ensures
            addr == Ipv6Addr(s@[0], s@[1], s@[2], s@[3], s@[4], s@[5], s@[6], s@[7]),
    {
        Ipv6Addr(s[0], s[1], s[2], s[3], s[4], s[5], s[6], s[7])
    }

    pub open spec fn view_segments(self) -> Seq<u16> {
        seq![self.0, self.1, self.2, self.3, self.4, self.5, self.6, self.7]
    }

    /// The eight segments, most significant first.
    pub fn segments(&self) -> (s: [u16; 8])
        ensures
            s@ == self.view_segments(),
    {
        [self.0, self.1, self.2, self.3, self.4, self.5, self.6, self.7]
    }

    /// `::1`.
    pub open spec fn spec_is_loopback(&self) -> bool {
        self == Ipv6Addr(0, 0, 0, 0, 0, 0, 0, 1)
    }

    /// `fc00::/7`.
    pub open spec fn spec_is_unique_local(&self) -> bool {
        0xfc00 <= self.0 <= 0xfdff
    }

    /// `fe80::/10`.
    pub open spec fn spec_is_unicast_link_local(&self) -> bool {
        0xfe80 <= self.0 <= 0xfebf
    }

    /// `::`.
    pub open spec fn spec_is_unspecified(&self) -> bool {
        self == Ipv6Addr(0, 0, 0, 0, 0, 0, 0, 0)
    }

    #[verifier::when_used_as_spec(spec_is_loopback)]
    pub fn is_loopback(&self) -> (r: bool)
        ensures
            r == self.spec_is_loopback(),
    {
        self.0 == 0 && self.1 == 0 && self.2 == 0 && self.3 == 0 && self.4 == 0 && self.5 == 0
            && self.6 == 0 && self.7 == 1
    }

    #[verifier::when_used_as_spec(spec_is_unique_local)]
    pub fn is_unique_local(&self) -> (r: bool)
        ensures
            r == self.spec_is_unique_local(),
    {
        0xfc00 <= self.0 && self.0 <= 0xfdff
    }

    #[verifier::when_used_as_spec(spec_is_unicast_link_local)]
    pub fn is_unicast_link_local(&self) -> (r: bool)
        ensures
            r == self.spec_is_unicast_link_local(),
    {
        0xfe80 <= self.0 && self.0 <= 0xfebf
    }

    #[verifier::when_used_as_spec(spec_is_unspecified)]
    pub fn is_unspecified(&self) -> (r: bool)
        ensures
            r == self.spec_is_unspecified(),
    {
        self.0 == 0 && self.1 == 0 && self.2 == 0 && self.3 == 0 && self.4 == 0 && self.5 == 0
            && self.6 == 0 && self.7 == 0
    }
}

/// An IPv4 address that may stand in a public DNS record: not loopback,
/// private, link-local or unspecified.
pub open spec fn spec_is_eligible_ipv4(ip: Ipv4Addr) -> bool {
    !ip.spec_is_loopback() && !ip.spec_is_private() && !ip.spec_is_link_local()
        && !ip.spec_is_unspecified()
}

/// An IPv6 address that may stand in a public DNS record: not loopback,
/// unique-local, unicast link-local or unspecified.
pub open spec fn spec_is_eligible_ipv6(ip: Ipv6Addr) -> bool {
    !ip.spec_is_loopback() && !ip.spec_is_unique_local() && !ip.spec_is_unicast_link_local()
        && !ip.spec_is_unspecified()
}

#[verifier::when_used_as_spec(spec_is_eligible_ipv4)]
pub fn is_eligible_ipv4(ip: Ipv4Addr) -> (r: bool)
    ensures
        r == spec_is_eligible_ipv4(ip),
{
    !ip.is_loopback() && !ip.is_private() && !ip.is_link_local() && !ip.is_unspecified()
}

#[verifier::when_used_as_spec(spec_is_eligible_ipv6)]
pub fn is_eligible_ipv6(ip: Ipv6Addr) -> (r: bool)
    ensures
        r == spec_is_eligible_ipv6(ip),
{
    !ip.is_loopback() && !ip.is_unique_local() && !ip.is_unicast_link_local()
        && !ip.is_unspecified()
}

/// Which IPv4 addresses may be published: none in `10.0.0.0/8`,
/// `172.16.0.0/12`, `192.168.0.0/16`, `127.0.0.0/8` or `169.254.0.0/16`, nor
/// `0.0.0.0`, whatever their other octets; every other address may.
pub proof fn lemma_ipv4_eligibility(ip: Ipv4Addr)
    ensures
        ip.0 == 10 ==> !spec_is_eligible_ipv4(ip),
        ip.0 == 172 && 16 <= ip.1 <= 31 ==> !spec_is_eligible_ipv4(ip),
        ip.0 == 192 && ip.1 == 168 ==> !spec_is_eligible_ipv4(ip),
        ip.0 == 127 ==> !spec_is_eligible_ipv4(ip),
        ip.0 == 169 && ip.1 == 254 ==> !spec_is_eligible_ipv4(ip),
        ip == Ipv4Addr(0, 0, 0, 0) ==> !spec_is_eligible_ipv4(ip),
        ip.0 != 10 && !(ip.0 == 172 && 16 <= ip.1 <= 31) && !(ip.0 == 192 && ip.1 == 168) && ip.0
            != 127 && !(ip.0 == 169 && ip.1 == 254) && ip != Ipv4Addr(0, 0, 0, 0)
            ==> spec_is_eligible_ipv4(ip),
{
}

/// Which IPv6 addresses may be published: none in `fe80::/10` or
/// `fc00::/7`, whatever their other segments, nor `::1` or `::`; every other
/// address may.
pub proof fn lemma_ipv6_eligibility(ip: Ipv6Addr)
    ensures
        0xfe80 <= ip.0 <= 0xfebf ==> !spec_is_eligible_ipv6(ip),
        0xfc00 <= ip.0 <= 0xfdff ==> !spec_is_eligible_ipv6(ip),
        ip == Ipv6Addr(0, 0, 0, 0, 0, 0, 0, 1) ==> !spec_is_eligible_ipv6(ip),
        ip == Ipv6Addr(0, 0, 0, 0, 0, 0, 0, 0) ==> !spec_is_eligible_ipv6(ip),
        !(0xfe80 <= ip.0 <= 0xfebf) && !(0xfc00 <= ip.0 <= 0xfdff) && ip != Ipv6Addr(
            0,
            0,
            0,
            0,
            0,
            0,
            0,
            1,
        ) && ip != Ipv6Addr(0, 0, 0, 0, 0, 0, 0, 0) ==> spec_is_eligible_ipv6(ip),
{
}

} // verus!
