use rist_netsim::netns_testbench::addr::Configurer;

#[test]
fn test_p2p_subnet_generation() {
    let (left, right) = Configurer::generate_p2p_subnet(1).unwrap();
    assert_eq!(left.octets, [10, 0, 0, 11]);
    assert_eq!(right.octets, [10, 0, 0, 12]);
    assert_eq!(left.prefix, 30);
    assert_eq!(right.prefix, 30);

    let (left2, right2) = Configurer::generate_p2p_subnet(2).unwrap();
    assert_eq!(left2.octets, [10, 0, 0, 15]);
    assert_eq!(right2.octets, [10, 0, 0, 16]);
}

#[test]
fn test_invalid_subnet_generation() {
    assert!(Configurer::generate_p2p_subnet(0).is_err());
    assert!(Configurer::generate_p2p_subnet(64).is_err()); // Would exceed 255
}

#[test]
fn highest_link_id_still_fits() {
    // link 61 starts at 10 + 60 * 4 = 250
    let (left, right) = Configurer::generate_p2p_subnet(61).unwrap();
    assert_eq!(left.octets, [10, 0, 0, 251]);
    assert_eq!(right.octets, [10, 0, 0, 252]);
    assert!(Configurer::generate_p2p_subnet(62).is_err());
}

use rist_netsim::netns_testbench::addr::{IpNet, NetworkConfigBuilder};

#[test]
fn p2p_link_plans_addresses_then_routes() {
    let (left, right) = Configurer::generate_p2p_subnet(1).unwrap();
    let b = NetworkConfigBuilder::new().p2p_link(
        "ns_a".to_string(),
        "veth-a".to_string(),
        left,
        "ns_b".to_string(),
        "veth-b".to_string(),
        right,
    );
    assert_eq!(b.addresses.len(), 2);
    assert_eq!(b.addresses[0].interface, "veth-a");
    assert_eq!(b.addresses[0].namespace.as_deref(), Some("ns_a"));
    assert!(matches!(b.addresses[1].address, IpNet::V4(s) if s.octets == [10, 0, 0, 12]));
    assert_eq!(b.routes.len(), 2);
    assert!(matches!(b.routes[0].destination, IpNet::V4(s) if s.octets == [10, 0, 0, 12]));
    assert_eq!(b.routes[0].interface.as_deref(), Some("veth-a"));
    assert!(b.routes[1].gateway.is_none());
    assert_eq!(b.routes[1].namespace.as_deref(), Some("ns_b"));
    let d = NetworkConfigBuilder::default();
    assert!(d.addresses.is_empty() && d.routes.is_empty());
}

#[test]
fn links_never_share_addresses() {
    let mut seen = std::collections::HashSet::new();
    for id in 1u8..=61 {
        let (l, r) = Configurer::generate_p2p_subnet(id).unwrap();
        assert!(seen.insert(l.octets));
        assert!(seen.insert(r.octets));
    }
}
