use kcore::net::{link_local_from_mac, slaac_address, Dhcp4Config, IpAddress, IpCidr, NetConfig, ALL_ROUTERS};

#[test]
fn link_local_from_mac_address() {
    let ll = link_local_from_mac([0x52, 0x54, 0x00, 0x12, 0x34, 0x56]);
    assert_eq!(ll, 0xfe80_0000_0000_0000_5054_00ff_fe12_3456);
    let ll2 = link_local_from_mac([0x02, 0x00, 0x00, 0x00, 0x00, 0x01]);
    assert_eq!(ll2, 0xfe80_0000_0000_0000_0000_00ff_fe00_0001);
    assert_eq!(ALL_ROUTERS >> 112, 0xff02);
}

#[test]
fn slaac_combines_prefix_and_identifier() {
    let prefix = 0x2001_0db8_0001_0002_ffff_ffff_ffff_ffff;
    let ll = 0xfe80_0000_0000_0000_5054_00ff_fe12_3456;
    assert_eq!(slaac_address(prefix, ll), 0x2001_0db8_0001_0002_5054_00ff_fe12_3456);
}

fn lease() -> Dhcp4Config {
    Dhcp4Config { address: 0x0a00_020f, prefix_len: 24, router: Some(0x0a00_0202), dns_servers: vec![0x0a00_0203, 0x0808_0808] }
}

#[test]
fn lease_applied_and_revoked() {
    let mut n = NetConfig::new();
    n.addresses.push(IpCidr::Ipv6(1, 64));
    n.dns_servers.push(IpAddress::Ipv6(9));
    n.dns_servers.push(IpAddress::Ipv4(0x0808_0808));
    n.apply_lease(&lease());
    assert_eq!(n.addresses, vec![IpCidr::Ipv6(1, 64), IpCidr::Ipv4(0x0a00_020f, 24)]);
    assert_eq!(n.default_v4_route, Some(0x0a00_0202));
    assert_eq!(n.dns_servers.len(), 4);
    n.revoke_lease(&lease());
    assert_eq!(n.addresses, vec![IpCidr::Ipv6(1, 64)]);
    assert_eq!(n.default_v4_route, None);
    assert_eq!(n.dns_servers, vec![IpAddress::Ipv6(9)]);
}

#[test]
fn revoking_unknown_lease_keeps_addresses() {
    let mut n = NetConfig::new();
    n.addresses.push(IpCidr::Ipv4(0x0a00_020f, 16));
    n.revoke_lease(&lease());
    assert_eq!(n.addresses, vec![IpCidr::Ipv4(0x0a00_020f, 16)]);
}

#[test]
fn lease_without_router_clears_route() {
    let mut n = NetConfig::new();
    n.default_v4_route = Some(1);
    n.apply_lease(&Dhcp4Config { address: 5, prefix_len: 8, router: None, dns_servers: Vec::new() });
    assert_eq!(n.default_v4_route, None);
}

#[test]
fn router_advert_adds_global_address() {
    let mut n = NetConfig::new();
    let ll = link_local_from_mac([0x52, 0x54, 0x00, 0x12, 0x34, 0x56]);
    n.apply_router_advert(ll, Some((0x2001_0db8_0000_0001_0000_0000_0000_0000, 64)), 0xfe80_0000_0000_0000_0000_0000_0000_0001, &vec![0x2001_4860_4860_0000_0000_0000_0000_8888]);
    assert_eq!(n.addresses, vec![IpCidr::Ipv6(0x2001_0db8_0000_0001_5054_00ff_fe12_3456, 64)]);
    assert_eq!(n.default_v6_route, Some(0xfe80_0000_0000_0000_0000_0000_0000_0001));
    assert_eq!(n.dns_servers, vec![IpAddress::Ipv6(0x2001_4860_4860_0000_0000_0000_0000_8888)]);
    n.apply_router_advert(ll, None, 7, &Vec::new());
    assert_eq!(n.addresses.len(), 1);
    assert_eq!(n.default_v6_route, Some(0xfe80_0000_0000_0000_0000_0000_0000_0001));
}

#[test]
fn link_local_installed_as_slash_64() {
    let mut n = NetConfig::new();
    let ll = n.add_link_local([0x52, 0x54, 0x00, 0x12, 0x34, 0x56]);
    assert_eq!(ll, 0xfe80_0000_0000_0000_5054_00ff_fe12_3456);
    assert_eq!(n.addresses, vec![IpCidr::Ipv6(ll, 64)]);
}
