use rist_netsim::network_sim::docker::{
    basic_network_steps, connectivity_args, impairment_args, impairment_outcome, step_args,
    step_spawn_failure, DockerNetworkEnv, DockerNetworkError, SetupStep,
};

#[test]
fn test_docker_feature_not_enabled() {
    println!("ℹ️ Docker feature not enabled, skipping Docker-based tests");
    println!("ℹ️ To enable Docker tests, use: cargo test --features docker");
}

#[test]
fn basic_network_steps_in_order() {
    let steps = basic_network_steps();
    let args: Vec<String> = steps.iter().map(|s| step_args(s).join(" ")).collect();
    assert_eq!(
        args,
        vec![
            "netns add test_ns1",
            "netns add test_ns2",
            "link add veth_test0 type veth peer name veth_test1",
            "link add veth_test2 type veth peer name veth_test3",
            "link set veth_test1 netns test_ns1",
            "link set veth_test3 netns test_ns2",
            "addr add 192.168.100.1/24 dev veth_test0",
            "addr add 192.168.101.1/24 dev veth_test2",
            "netns exec test_ns1 ip addr add 192.168.100.2/24 dev veth_test1",
            "netns exec test_ns2 ip addr add 192.168.101.2/24 dev veth_test3",
            "link set veth_test0 up",
            "link set veth_test2 up",
            "netns exec test_ns1 ip link set veth_test1 up",
            "netns exec test_ns2 ip link set veth_test3 up",
        ]
    );
}

#[test]
fn steps_record_what_they_create_and_cleanup_removes_it() {
    let mut env = DockerNetworkEnv::new();
    for s in basic_network_steps() {
        env.complete_step(&s, true, "").unwrap();
    }
    assert_eq!(env.namespaces, vec!["test_ns1", "test_ns2"]);
    assert_eq!(env.interfaces, vec!["veth_test0", "veth_test1", "veth_test2", "veth_test3"]);
    let cleanup: Vec<String> = env.cleanup_commands().iter().map(|a| a.join(" ")).collect();
    assert_eq!(
        cleanup,
        vec![
            "netns del test_ns1",
            "netns del test_ns2",
            "link del veth_test0",
            "link del veth_test1",
            "link del veth_test2",
            "link del veth_test3",
        ]
    );
    env.clear();
    assert!(env.namespaces.is_empty() && env.interfaces.is_empty());
    assert!(env.cleanup_commands().is_empty());
}

#[test]
fn failed_steps_are_reported() {
    let mut env = DockerNetworkEnv::new();
    let ns = SetupStep::CreateNamespace { name: "n1".to_string() };
    // an existing namespace is accepted and recorded
    env.complete_step(&ns, false, "Cannot create namespace file: File exists").unwrap();
    assert_eq!(env.namespaces, vec!["n1"]);
    match env.complete_step(&ns, false, "Permission denied") {
        Err(DockerNetworkError::NamespaceError(m)) => {
            assert_eq!(m, "Failed to create namespace n1: Permission denied")
        }
        _ => panic!("expected a namespace error"),
    }
    assert_eq!(env.namespaces, vec!["n1"]);
    let up = SetupStep::BringUpInterface { interface: "v0".to_string() };
    match env.complete_step(&up, false, "File exists") {
        Err(DockerNetworkError::InterfaceError(m)) => {
            assert_eq!(m, "Failed to bring up interface v0: File exists")
        }
        _ => panic!("expected an interface error"),
    }
    let mv = SetupStep::MoveInterface { interface: "v1".to_string(), namespace: "n1".to_string() };
    match step_spawn_failure(&mv, "No such file") {
        DockerNetworkError::CommandFailed(m) => assert_eq!(m, "Failed to move interface: No such file"),
        _ => panic!("expected a command failure"),
    }
}

#[test]
fn impairments_and_ping() {
    assert_eq!(
        impairment_args("veth_test0", 50, "1", 1000).join(" "),
        "qdisc add dev veth_test0 root handle 1: netem delay 50ms loss 1% rate 1000kbit"
    );
    assert!(impairment_outcome("veth_test0", true, "").is_ok());
    match impairment_outcome("veth_test0", false, "oops") {
        Err(DockerNetworkError::InterfaceError(m)) => {
            assert_eq!(m, "Failed to apply network impairments to veth_test0: oops")
        }
        _ => panic!("expected an interface error"),
    }
    assert_eq!(
        connectivity_args("test_ns1", "192.168.100.1").join(" "),
        "netns exec test_ns1 ping -c 1 -W 1 192.168.100.1"
    );
}
