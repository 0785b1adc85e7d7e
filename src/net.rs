//! The network configuration that the DHCPv4 and IPv6 router-discovery
//! tasks maintain: interface addresses, default routes and DNS servers.
//! IPv4 addresses are held as `u32` and IPv6 addresses as `u128`, most
//! significant byte first.
use vstd::prelude::*;

verus! {

/// The IPv6 all-routers multicast address `ff02::2`.
pub const ALL_ROUTERS: u128 = 0xff02_0000_0000_0000_0000_0000_0000_0002;

/// Two to the 64th: the interface identifier is the low 64 bits.
pub const IID_SPAN: u128 = 0x1_0000_0000_0000_0000;

#[derive(Clone, Copy, Debug, PartialEq, Eq)]
pub enum IpAddress {
    Ipv4(u32),
    Ipv6(u128),
}

/// An interface address with its prefix length.
#[derive(Clone, Copy, Debug, PartialEq, Eq)]
pub enum IpCidr {
    Ipv4(u32, u8),
    Ipv6(u128, u8),
}

/// A DHCPv4 lease.
pub struct Dhcp4Config {
    pub address: u32,
    pub prefix_len: u8,
    pub router: Option<u32>,
    pub dns_servers: Vec<u32>,
}

/// The interface's addresses, default routes and resolvers.
pub struct NetConfig {
    pub addresses: Vec<IpCidr>,
    pub dns_servers: Vec<IpAddress>,
    pub default_v4_route: Option<u32>,
    pub default_v6_route: Option<u128>,
}

/// The value of bytes `s` read most significant first.
pub open spec fn be_value(s: Seq<u8>) -> int
    decreases s.len(),
{
    if s.len() == 0 { 0 } else { be_value(s.drop_last()) * 256 + s.last() }
}

/// `b` with bit 1 (the universal/local bit of a MAC's first byte) clear.
pub open spec fn clear_bit1(b: u8) -> int {
    if (b / 2) % 2 == 1 { b - 2 } else { b as int }
}

/// The link-local address formed from a MAC address: `fe80::/64` with the
/// interface identifier made of the MAC's first three bytes (bit 1 of the
/// first cleared), `ff fe`, and its last three bytes.
pub open spec fn spec_link_local(mac: Seq<u8>) -> int {
    be_value(seq![0xfeu8, 0x80, 0, 0, 0, 0, 0, 0, clear_bit1(mac[0]) as u8, mac[1], mac[2], 0xff, 0xfe, mac[3], mac[4], mac[5]])
}

/// The link-local address of the interface with hardware address `mac`.
pub fn link_local_from_mac(mac: [u8; 6]) -> (r: u128)
    ensures
        r == spec_link_local(mac@),
{
    let m0 = mac[0] as u128;
    let a = (m0 - ((m0 / 2) % 2) * 2) * 256 + mac[1] as u128;
    let b = mac[2] as u128 * 256 + 0xff;
    let c = 0xfe00 + mac[3] as u128;
    let d = mac[4] as u128 * 256 + mac[5] as u128;
    proof {
        reveal_with_fuel(be_value, 17);
        assert(clear_bit1(mac[0]) == m0 - ((m0 / 2) % 2) * 2);
    }
    0xfe80 * 0x1_0000_0000_0000_0000_0000_0000_0000 + a * 0x1_0000_0000_0000 + b * 0x1_0000_0000 + c * 0x1_0000 + d
}

/// A global address from an advertised prefix: the prefix's upper 64 bits
/// and the link-local address's interface identifier.
pub fn slaac_address(prefix: u128, link_local: u128) -> (r: u128)
    ensures
        r == prefix / IID_SPAN * IID_SPAN + link_local % IID_SPAN,
{
    proof {
        vstd::arithmetic::div_mod::lemma_fundamental_div_mod(prefix as int, IID_SPAN as int);
    }
    prefix / IID_SPAN * IID_SPAN + link_local % IID_SPAN
}

/// `a` is one of the lease's resolvers.
pub open spec fn from_lease(dns: Seq<u32>, a: IpAddress) -> bool {
    match a {
        IpAddress::Ipv4(v) => dns.contains(v),
        IpAddress::Ipv6(_) => false,
    }
}

/// The lease's resolvers as addresses.
pub open spec fn v4_addresses(dns: Seq<u32>) -> Seq<IpAddress> {
    dns.map_values(|v: u32| IpAddress::Ipv4(v))
}

fn contains_u32(v: &Vec<u32>, x: u32) -> (r: bool)
    ensures
        r == v@.contains(x),
{
    let mut i: usize = 0;
    while i < v.len()
        invariant
            0 <= i <= v@.len(),
            forall|j: int| 0 <= j < i ==> v@[j] != x,
        decreases v@.len() - i,
    {
        if v[i] == x {
            return true;
        }
        i = i + 1;
    }
    false
}

fn cidr_is(c: IpCidr, address: u32, prefix_len: u8) -> (r: bool)
    ensures
        r == (c == IpCidr::Ipv4(address, prefix_len)),
{
    match c {
        IpCidr::Ipv4(a, p) => a == address && p == prefix_len,
        IpCidr::Ipv6(_, _) => false,
    }
}

impl NetConfig {
    /// No address, route or resolver.
    pub fn new() -> (r: Self)
        ensures
            r.addresses@.len() == 0,
            r.dns_servers@.len() == 0,
            r.default_v4_route is None,
            r.default_v6_route is None,
    {
        NetConfig { addresses: Vec::new(), dns_servers: Vec::new(), default_v4_route: None, default_v6_route: None }
    }

    /// A lease arrived: its address is added, its router becomes the
    /// default IPv4 route (none if it names none), its resolvers are added.
    pub fn apply_lease(&mut self, lease: &Dhcp4Config)
        ensures
            final(self).addresses@ == old(self).addresses@.push(IpCidr::Ipv4(lease.address, lease.prefix_len)),
            final(self).default_v4_route == lease.router,
            final(self).default_v6_route == old(self).default_v6_route,
            final(self).dns_servers@ == old(self).dns_servers@ + v4_addresses(lease.dns_servers@),
    {
        self.addresses.push(IpCidr::Ipv4(lease.address, lease.prefix_len));
        self.default_v4_route = lease.router;
        let mut i: usize = 0;
        let ghost d0 = self.dns_servers@;
        proof {
            assert(lease.dns_servers@.subrange(0, 0) =~= Seq::<u32>::empty());
            assert(v4_addresses(Seq::<u32>::empty()) =~= Seq::<IpAddress>::empty());
            assert(d0 + Seq::<IpAddress>::empty() =~= d0);
        }
        while i < lease.dns_servers.len()
            invariant
                0 <= i <= lease.dns_servers@.len(),
                self.dns_servers@ == d0 + v4_addresses(lease.dns_servers@.subrange(0, i as int)),
                self.addresses@ == old(self).addresses@.push(IpCidr::Ipv4(lease.address, lease.prefix_len)),
                self.default_v4_route == lease.router,
                self.default_v6_route == old(self).default_v6_route,
                d0 == old(self).dns_servers@,
            decreases lease.dns_servers@.len() - i,
        {
            self.dns_servers.push(IpAddress::Ipv4(lease.dns_servers[i]));
            proof {
                assert(v4_addresses(lease.dns_servers@.subrange(0, i + 1)) =~= v4_addresses(lease.dns_servers@.subrange(0, i as int)).push(IpAddress::Ipv4(lease.dns_servers@[i as int])));
                assert(self.dns_servers@ =~= d0 + v4_addresses(lease.dns_servers@.subrange(0, i + 1)));
            }
            i = i + 1;
        }
        proof {
            assert(lease.dns_servers@.subrange(0, lease.dns_servers@.len() as int) == lease.dns_servers@);
        }
    }

    /// The lease ended: the first interface address equal to the lease's
    /// is removed, the default IPv4 route goes, and every resolver that the
    /// lease supplied goes.
    pub fn revoke_lease(&mut self, lease: &Dhcp4Config)
        ensures
            final(self).default_v4_route is None,
            final(self).default_v6_route == old(self).default_v6_route,
            final(self).dns_servers@ == old(self).dns_servers@.filter(|a: IpAddress| !from_lease(lease.dns_servers@, a)),
            (forall|j: int| 0 <= j < old(self).addresses@.len() ==> old(self).addresses@[j] != IpCidr::Ipv4(lease.address, lease.prefix_len))
                ==> final(self).addresses@ == old(self).addresses@,
            forall|k: int| 0 <= k < old(self).addresses@.len() && old(self).addresses@[k] == IpCidr::Ipv4(lease.address, lease.prefix_len)
                && (forall|j: int| 0 <= j < k ==> old(self).addresses@[j] != IpCidr::Ipv4(lease.address, lease.prefix_len))
                ==> final(self).addresses@ == old(self).addresses@.remove(k),
    {
        let target = IpCidr::Ipv4(lease.address, lease.prefix_len);
        let mut i: usize = 0;
        while i < self.addresses.len() && !cidr_is(self.addresses[i], lease.address, lease.prefix_len)
            invariant
                0 <= i <= self.addresses@.len(),
                self.addresses@ == old(self).addresses@,
                target == IpCidr::Ipv4(lease.address, lease.prefix_len),
                forall|j: int| 0 <= j < i ==> self.addresses@[j] != target,
            decreases self.addresses@.len() - i,
        {
            i = i + 1;
        }
        if i < self.addresses.len() {
            self.addresses.remove(i);
        }
        self.default_v4_route = None;
        let ghost a1 = self.addresses@;
        let ghost pred = |a: IpAddress| !from_lease(lease.dns_servers@, a);
        let ghost d0 = self.dns_servers@;
        let mut kept: Vec<IpAddress> = Vec::new();
        let mut k: usize = 0;
        proof {
            reveal(Seq::filter);
            assert(d0.subrange(0, 0).filter(pred) =~= Seq::<IpAddress>::empty());
        }
        while k < self.dns_servers.len()
            invariant
                0 <= k <= d0.len(),
                self.dns_servers@ == d0,
                kept@ == d0.subrange(0, k as int).filter(pred),
                pred == (|a: IpAddress| !from_lease(lease.dns_servers@, a)),
                self.default_v4_route is None,
                self.default_v6_route == old(self).default_v6_route,
                self.addresses@ == a1,
            decreases d0.len() - k,
        {
            let a = self.dns_servers[k];
            let drop = match a {
                IpAddress::Ipv4(v) => contains_u32(&lease.dns_servers, v),
                IpAddress::Ipv6(_) => false,
            };
            proof {
                reveal(Seq::filter);
                assert(d0.subrange(0, k + 1).drop_last() =~= d0.subrange(0, k as int));
                assert(d0.subrange(0, k + 1).last() == a);
                assert(pred(a) == !from_lease(lease.dns_servers@, a));
                assert(drop == !pred(a));
            }
            if !drop {
                kept.push(a);
            }
            k = k + 1;
        }
        proof {
            assert(d0.subrange(0, d0.len() as int) == d0);
        }
        self.dns_servers = kept;
    }

    /// Adds the link-local address of hardware address `mac` as a /64,
    /// before routers are solicited; returns that address.
    pub fn add_link_local(&mut self, mac: [u8; 6]) -> (r: u128)
        ensures
            r == spec_link_local(mac@),
            final(self).addresses@ == old(self).addresses@.push(IpCidr::Ipv6(r, 64)),
            final(self).dns_servers@ == old(self).dns_servers@,
            final(self).default_v4_route == old(self).default_v4_route,
            final(self).default_v6_route == old(self).default_v6_route,
    {
        let ll = link_local_from_mac(mac);
        self.addresses.push(IpCidr::Ipv6(ll, 64));
        ll
    }

    /// A router advertisement: with a prefix, the address formed from it
    /// and the link-local identifier is added and the router becomes the
    /// default IPv6 route; advertised resolvers are added either way.
    pub fn apply_router_advert(&mut self, link_local: u128, prefix: Option<(u128, u8)>, router: u128, dns: &Vec<u128>)
        ensures
            final(self).default_v4_route == old(self).default_v4_route,
            prefix matches Some((p, len)) ==> final(self).addresses@ == old(self).addresses@.push(
                IpCidr::Ipv6((p / IID_SPAN * IID_SPAN + link_local % IID_SPAN) as u128, len),
            ) && final(self).default_v6_route == Some(router),
            prefix is None ==> final(self).addresses@ == old(self).addresses@
                && final(self).default_v6_route == old(self).default_v6_route,
            final(self).dns_servers@ == old(self).dns_servers@ + dns@.map_values(|v: u128| IpAddress::Ipv6(v)),
    {
        if let Some((p, len)) = prefix {
            let a = slaac_address(p, link_local);
            self.addresses.push(IpCidr::Ipv6(a, len));
            self.default_v6_route = Some(router);
        }
        let mut i: usize = 0;
        let ghost d0 = self.dns_servers@;
        let ghost a1 = self.addresses@;
        let ghost r6 = self.default_v6_route;
        proof {
            assert(dns@.subrange(0, 0).map_values(|v: u128| IpAddress::Ipv6(v)) =~= Seq::<IpAddress>::empty());
            assert(d0 + Seq::<IpAddress>::empty() =~= d0);
        }
        while i < dns.len()
            invariant
                0 <= i <= dns@.len(),
                self.dns_servers@ == d0 + dns@.subrange(0, i as int).map_values(|v: u128| IpAddress::Ipv6(v)),
                d0 == old(self).dns_servers@,
                self.default_v4_route == old(self).default_v4_route,
                self.addresses@ == a1,
                self.default_v6_route == r6,
            decreases dns@.len() - i,
        {
            self.dns_servers.push(IpAddress::Ipv6(dns[i]));
            proof {
                assert(dns@.subrange(0, i + 1).map_values(|v: u128| IpAddress::Ipv6(v)) =~= dns@.subrange(0, i as int).map_values(|v: u128| IpAddress::Ipv6(v)).push(IpAddress::Ipv6(dns@[i as int])));
                assert(self.dns_servers@ =~= d0 + dns@.subrange(0, i + 1).map_values(|v: u128| IpAddress::Ipv6(v)));
            }
            i = i + 1;
        }
        proof {
            assert(dns@.subrange(0, dns@.len() as int) == dns@);
        }
    }
}

} // verus!
