use rist_netsim::network_sim::command::{failure_tolerated, OnFailure, PlannedCommand};
use rist_netsim::network_sim::link::{VethPair, VethPairConfig};
use rist_netsim::network_sim::namespace::{
    get_connection_ips, rist_test_link_config, rx_namespace_invocation, shaped_cleanup_commands,
    shaped_creation_commands, ShapedVethConfig,
};
use rist_netsim::network_sim::nsapi::Namespace;
use rist_netsim::network_sim::qdisc::{
    ingress_qdisc_tc_args, ingress_redirect_tc_args, ingress_step_failure, interface_presence,
    interface_stats_from_tc_output, shaping_tc_commands, shaping_tc_commands_in_ns, tc_failure,
    InterfaceStats, NetemConfig, QdiscError, QdiscManager,
};

fn line(c: &PlannedCommand) -> String {
    format!("{} {}", c.program, c.args.join(" "))
}

fn lines(plan: &[PlannedCommand]) -> Vec<String> {
    plan.iter().map(line).collect()
}

#[test]
fn ifb_names_replace_slashes_and_cut_at_fifteen_bytes() {
    let q = QdiscManager::new();
    assert_eq!(q.ingress_ifb_name("eth0"), "ifb-eth0");
    assert_eq!(q.ingress_ifb_name("br/0"), "ifb-br-0");
    assert_eq!(q.ingress_ifb_name("veth-link-12-abcdef"), "ifb-veth-link-1");
}

fn joined(cmds: Vec<Vec<String>>) -> Vec<String> {
    cmds.iter().map(|a| a.join(" ")).collect()
}

#[test]
fn rate_is_shaped_by_htb_with_netem_below() {
    let c = NetemConfig {
        delay_us: 20000,
        jitter_us: 0,
        loss_percent: Some("1.5".to_string()),
        loss_correlation: None,
        reorder_percent: None,
        duplicate_percent: Some("0.1".to_string()),
        rate_bps: 500,
    };
    assert_eq!(
        joined(shaping_tc_commands("veth0", &c)),
        vec![
            "qdisc add dev veth0 root handle 1: htb default 10",
            "class add dev veth0 parent 1: classid 1:10 htb rate 1kbit ceil 1kbit",
            "qdisc add dev veth0 parent 1:10 handle 10: netem delay 20000us loss 1.5% duplicate 0.1%",
        ]
    );
    assert_eq!(
        joined(shaping_tc_commands_in_ns("ns1", "veth0", &c)),
        vec![
            "netns exec ns1 tc qdisc add dev veth0 root handle 1: htb default 10",
            "netns exec ns1 tc class add dev veth0 parent 1: classid 1:10 htb rate 1kbit ceil 1kbit",
            "netns exec ns1 tc qdisc add dev veth0 parent 1:10 handle 10: netem delay 20000us loss 1.5% duplicate 0.1%",
        ]
    );
    let full = NetemConfig {
        delay_us: 100,
        jitter_us: 10,
        loss_percent: Some("2".to_string()),
        loss_correlation: Some("25".to_string()),
        reorder_percent: Some("5".to_string()),
        duplicate_percent: None,
        rate_bps: 10_000_000,
    };
    assert_eq!(
        joined(shaping_tc_commands("eth1", &full))[1..].to_vec(),
        vec![
            "class add dev eth1 parent 1: classid 1:10 htb rate 10000kbit ceil 10000kbit",
            "qdisc add dev eth1 parent 1:10 handle 10: netem delay 100us 10us loss 2% 25% reorder 5%",
        ]
    );
}

#[test]
fn without_a_rate_netem_alone_is_root() {
    let quiet = NetemConfig {
        delay_us: 0,
        jitter_us: 5,
        loss_percent: None,
        loss_correlation: Some("3".to_string()),
        reorder_percent: None,
        duplicate_percent: None,
        rate_bps: 0,
    };
    assert_eq!(joined(shaping_tc_commands("lo", &quiet)), vec!["qdisc add dev lo root handle 10: netem"]);
}

#[test]
fn ingress_arguments() {
    assert_eq!(ingress_qdisc_tc_args("eth0").join(" "), "qdisc add dev eth0 handle ffff: ingress");
    assert_eq!(
        ingress_redirect_tc_args("eth0", "ifb-eth0").join(" "),
        "filter add dev eth0 parent ffff: protocol all u32 match u32 0 0 action mirred egress redirect dev ifb-eth0"
    );
}

#[test]
fn failed_tc_runs_are_classified() {
    assert!(matches!(tc_failure("RTNETLINK answers: Operation not permitted", "eth0"), QdiscError::PermissionDenied));
    match tc_failure("Cannot find device \"eth9\"", "eth9") {
        QdiscError::InterfaceNotFound(n) => assert_eq!(n, "eth9"),
        _ => panic!("expected a missing interface"),
    }
    match tc_failure("Error: bad option", "eth0") {
        QdiscError::CommandFailed(m) => assert_eq!(m, "Error: bad option"),
        _ => panic!("expected a failure"),
    }
    assert!(matches!(interface_presence(true, ""), Ok(true)));
    assert!(matches!(interface_presence(false, "Device \"x\" does not exist."), Ok(false)));
    assert!(matches!(interface_presence(false, "boom"), Err(QdiscError::CommandFailed(_))));
    assert!(ingress_step_failure("RTNETLINK answers: File exists").is_none());
    assert!(matches!(ingress_step_failure("Operation not permitted"), Some(QdiscError::PermissionDenied)));
}

#[test]
fn tc_statistics_are_read() {
    let out = "qdisc netem 10: root refcnt 2 limit 1000 delay 20ms\n Sent 12345 bytes 67 pkt (dropped 1, overlimits 0 requeues 0)\n backlog 0b 0p requeues 0\n";
    assert_eq!(
        interface_stats_from_tc_output(out),
        InterfaceStats { sent_bytes: 12345, sent_packets: 67, dropped: 1 }
    );
    // a later statistics line overrides an earlier one; unparsable numbers leave counters alone
    let two = " Sent 1 bytes 2 pkt (dropped 3, overlimits 0)\n Sent x bytes 9 pkt (dropped 4)";
    assert_eq!(
        interface_stats_from_tc_output(two),
        InterfaceStats { sent_bytes: 1, sent_packets: 9, dropped: 4 }
    );
    assert_eq!(
        interface_stats_from_tc_output(""),
        InterfaceStats { sent_bytes: 0, sent_packets: 0, dropped: 0 }
    );
}

#[test]
fn command_failures_are_judged_by_plan() {
    assert!(failure_tolerated(OnFailure::Ignore, "anything"));
    assert!(!failure_tolerated(OnFailure::Fail, "File exists"));
    assert!(failure_tolerated(OnFailure::TolerateExists, "RTNETLINK answers: File exists"));
    assert!(!failure_tolerated(OnFailure::TolerateExists, "Operation not permitted"));
}

#[test]
fn veth_link_creation_plan() {
    let cfg = VethPairConfig {
        tx_if: "veth-tx".to_string(),
        rx_if: "veth-rx".to_string(),
        tx_ip_cidr: "10.0.0.1/30".to_string(),
        rx_ip_cidr: "10.0.0.2/30".to_string(),
        tx_ns: None,
        rx_ns: Some("rxns".to_string()),
    };
    let plan = VethPair::creation_commands(&cfg);
    assert_eq!(
        lines(&plan),
        vec![
            "ip netns add rxns",
            "ip link del dev veth-tx",
            "ip link del dev veth-rx",
            "ip netns exec rxns ip link del dev veth-rx",
            "ip link add veth-tx type veth peer name veth-rx",
            "ip link set veth-rx netns rxns",
            "ip addr add 10.0.0.1/30 dev veth-tx",
            "ip link set veth-tx up",
            "ip netns exec rxns ip addr add 10.0.0.2/30 dev veth-rx",
            "ip netns exec rxns ip link set veth-rx up",
            "ip netns exec rxns ip link set lo up",
        ]
    );
    assert_eq!(plan[0].on_failure, OnFailure::TolerateExists);
    assert_eq!(plan[1].on_failure, OnFailure::Ignore);
    assert_eq!(plan[4].on_failure, OnFailure::Fail);

    let pair = VethPair::from_config(&cfg);
    assert_eq!(pair.tx_if, "veth-tx");
    assert_eq!(pair.rx_ns.as_deref(), Some("rxns"));
    assert_eq!(
        lines(&pair.deletion_commands()),
        vec!["ip link del dev veth-tx", "ip netns del rxns"]
    );
}

#[test]
fn shaped_pair_plans() {
    let cfg = rist_test_link_config("rist", 1);
    assert_eq!(cfg.tx_interface, "risttx1");
    assert_eq!(cfg.rx_interface, "ristrx1");
    assert_eq!(cfg.tx_ip, "10.101.1.1/30");
    assert_eq!(cfg.rx_ip, "10.101.1.2/30");
    assert_eq!(cfg.rx_namespace.as_deref(), Some("ristns1"));
    assert_eq!(
        lines(&shaped_cleanup_commands(&cfg)),
        vec!["tc qdisc del dev risttx1 root", "ip netns del ristns1", "ip link del dev risttx1"]
    );
    let plan = shaped_creation_commands(&cfg);
    assert_eq!(plan.len(), 11);
    assert_eq!(line(&plan[3]), "ip link add risttx1 type veth peer name ristrx1");
    assert_eq!(line(&plan[10]), "ip -n ristns1 link set dev lo up");

    let root = ShapedVethConfig {
        tx_interface: "a".to_string(),
        rx_interface: "b".to_string(),
        tx_ip: "10.0.0.1".to_string(),
        rx_ip: "10.0.0.2/24".to_string(),
        rx_namespace: None,
    };
    assert_eq!(
        lines(&shaped_creation_commands(&root))[2..].to_vec(),
        vec![
            "ip link add a type veth peer name b",
            "ip addr add 10.0.0.1 dev a",
            "ip link set dev a up",
            "ip addr add 10.0.0.2/24 dev b",
            "ip link set dev b up",
        ]
    );
    assert_eq!(get_connection_ips(&root), ("10.0.0.1".to_string(), "10.0.0.2".to_string()));
    assert_eq!(get_connection_ips(&cfg), ("10.101.1.1".to_string(), "10.101.1.2".to_string()));
    let (prog, args) = rx_namespace_invocation(&cfg, "ping", &["-c", "1", "10.101.1.1"]);
    assert_eq!(prog, "ip");
    assert_eq!(args.join(" "), "netns exec ristns1 ping -c 1 10.101.1.1");
    let (prog, args) = rx_namespace_invocation(&root, "ping", &["-c", "1"]);
    assert_eq!(prog, "ping");
    assert_eq!(args.join(" "), "-c 1");
}

#[test]
fn namespace_handles() {
    let ns = Namespace::from_existing("rx0".to_string());
    assert_eq!(ns.name(), "rx0");
    assert_eq!(Namespace::ensure_args("rx0").join(" "), "netns add rx0");
    assert_eq!(ns.delete_args().join(" "), "netns del rx0");
    assert_eq!(ns.exec_args("tc", &["qdisc", "show"]).join(" "), "netns exec rx0 tc qdisc show");
    assert_eq!(ns.file_candidates(), vec!["/run/netns/rx0".to_string(), "/var/run/netns/rx0".to_string()]);
    assert_eq!(Namespace::ensure_outcome("rx0".to_string(), true, "").unwrap().name(), "rx0");
    assert_eq!(
        Namespace::ensure_outcome("rx0".to_string(), false, "Cannot create namespace file \"/run/netns/rx0\": File exists")
            .unwrap()
            .name(),
        "rx0"
    );
    assert_eq!(
        Namespace::ensure_outcome("rx0".to_string(), false, "Permission denied").unwrap_err(),
        "ip netns add rx0 failed: Permission denied"
    );
}
