use rist_netsim::netns_testbench::bench::{
    link_resources, profile_apply_failure, profile_commands, LossArgs, OrchestratorBook,
    ProfileArgs, TestbenchError,
};

#[test]
fn ports_derive_from_seed() {
    let b = OrchestratorBook::new(42);
    assert_eq!(b.next_link_id, 1);
    assert_eq!(b.next_port_forward, 30420);
    assert_eq!(b.next_port_reverse, 31420);
    let b = OrchestratorBook::new(123_999);
    assert_eq!(b.next_port_forward, 39990);
    assert_eq!(b.next_port_reverse, 40990);
    assert!(b.active_links.is_empty());
}

#[test]
fn links_are_numbered_and_given_ports() {
    let mut b = OrchestratorBook::new(0);
    let (id, n) = b.next_link();
    assert_eq!(id, "link_1");
    assert_eq!(n, 1);
    assert_eq!(b.addressing_number(), 1);
    assert_eq!(b.start_link(id), (30000, 31000));
    let (id2, _) = b.next_link();
    assert_eq!(id2, "link_2");
    assert_eq!(b.start_link(id2), (30002, 31002));
    assert_eq!(b.active_links, vec!["link_1", "link_2"]);
    assert_eq!(b.next_link_id, 3);
}

#[test]
fn resources_are_named_and_found_by_link() {
    let r = link_resources("tx0", "rx0", "link_1");
    assert_eq!(r.ns_a, "tx0_link_1");
    assert_eq!(r.ns_b, "rx0_link_1");
    assert_eq!(r.veth_a, "veth-link_1-a");
    assert_eq!(r.veth_b, "veth-link_1-b");
    let mut b = OrchestratorBook::new(7);
    b.record_resources(r);
    b.record_resources(link_resources("tx0", "rx0", "link_2"));
    assert_eq!(b.find_resources("link_2"), Some(1));
    assert_eq!(b.find_resources("link_1"), Some(0));
    assert_eq!(b.find_resources("link_3"), None);
    match OrchestratorBook::unknown_link("link_3") {
        TestbenchError::InvalidConfig(m) => assert_eq!(m, "Unknown link id link_3"),
        _ => panic!("expected an invalid configuration"),
    }
}

#[test]
fn cellular_profile_commands() {
    let p = ProfileArgs {
        rate_kbit: 5000,
        delay_ms: 40,
        jitter_ms: 10,
        corr_pct: 25,
        loss: LossArgs::Gemodel {
            p_enter_bad: "0.01".to_string(),
            r_leave_bad: "0.3".to_string(),
            bad_loss: "0.6".to_string(),
            good_loss: "0.0005".to_string(),
        },
        reorder: Some(("0.3".to_string(), 25)),
        duplicate: None,
        corrupt: Some("0.1".to_string()),
    };
    let (root, class, netem) = profile_commands("ns_a", "veth-a", &p);
    assert_eq!(
        root.join(" "),
        "netns exec ns_a tc qdisc replace dev veth-a root handle 1: htb default 10"
    );
    assert_eq!(
        class.join(" "),
        "netns exec ns_a tc class replace dev veth-a parent 1: classid 1:10 htb rate 5000kbit ceil 5000kbit"
    );
    assert_eq!(
        netem.join(" "),
        "netns exec ns_a tc qdisc replace dev veth-a parent 1:10 handle 10: netem delay 40ms 10ms 25% loss gemodel 0.01 0.3 0.6 0.0005 reorder 0.3% 25% corrupt 0.1%"
    );
    let q = ProfileArgs {
        rate_kbit: 1,
        delay_ms: 0,
        jitter_ms: 0,
        corr_pct: 0,
        loss: LossArgs::Random { pct: "1.5".to_string(), corr_pct: 20 },
        reorder: None,
        duplicate: Some("2".to_string()),
        corrupt: None,
    };
    let (_, _, netem) = profile_commands("n", "i", &q);
    assert_eq!(
        netem.join(" "),
        "netns exec n tc qdisc replace dev i parent 1:10 handle 10: netem delay 0ms 0ms 0% loss 1.5% 20% duplicate 2%"
    );
    match profile_apply_failure("n", "i", "bad") {
        TestbenchError::InvalidConfig(m) => assert_eq!(m, "tc netem apply failed in ns n on i: bad"),
        _ => panic!("expected an invalid configuration"),
    }
}

#[test]
fn a_failed_setup_keeps_the_number_but_hands_out_no_ports() {
    let mut b = OrchestratorBook::new(0);
    let (id, _) = b.next_link();
    let failed = b.finish_start(id, Err(TestbenchError::InvalidConfig("setup failed".to_string())));
    match failed {
        Err(TestbenchError::InvalidConfig(m)) => assert_eq!(m, "setup failed"),
        _ => panic!("expected the setup error"),
    }
    assert_eq!(b.next_link_id, 2);
    assert_eq!(b.next_port_forward, 30000);
    assert!(b.active_links.is_empty());
    assert!(b.resources.is_empty());

    let (id2, _) = b.next_link();
    assert_eq!(id2, "link_2");
    let res = link_resources("tx0", "rx0", &id2);
    let ports = b.finish_start(id2, Ok(res)).ok().unwrap();
    assert_eq!(ports, (30000, 31000));
    assert_eq!(b.active_links, vec!["link_2"]);
    assert_eq!(b.find_resources("link_2"), Some(0));
    assert_eq!(b.next_port_forward, 30002);
    assert_eq!(b.next_port_reverse, 31002);
}
