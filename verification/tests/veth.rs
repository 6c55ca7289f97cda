use rist_netsim::netns_testbench::veth::is_valid_interface_name;

#[test]
fn test_interface_name_validation() {
    assert!(is_valid_interface_name("eth0"));
    assert!(is_valid_interface_name("veth-test"));
    assert!(is_valid_interface_name("test_123"));

    assert!(!is_valid_interface_name(""));
    assert!(!is_valid_interface_name("this-name-is-way-too-long-for-linux"));
    assert!(!is_valid_interface_name("-invalid"));
    assert!(!is_valid_interface_name("invalid@name"));
}

#[test]
fn interface_name_length_counts_bytes() {
    assert!(is_valid_interface_name("abcdefghijklmno")); // 15 bytes
    assert!(!is_valid_interface_name("abcdefghijklmnop")); // 16 bytes
    assert!(is_valid_interface_name("a.b_c-d"));
    // seven two-byte letters make 14 bytes, eight make 16
    assert!(is_valid_interface_name("ééééééé"));
    assert!(!is_valid_interface_name("éééééééé"));
    assert!(!is_valid_interface_name("a b"));
}

use rist_netsim::netns_testbench::veth::{PairManager, VethError};

fn with_manager(f: impl FnOnce(&mut PairManager)) {
    let rt = tokio::runtime::Builder::new_current_thread().enable_all().build().unwrap();
    rt.block_on(async {
        let (connection, handle, _) = rtnetlink::new_connection().unwrap();
        drop(connection);
        let mut m = PairManager::with_handle(handle);
        f(&mut m);
    });
}

#[test]
fn pairs_are_recorded_under_both_names_and_taken_together() {
    with_manager(|m| {
        assert!(m.check_new_pair("test-left", "test-right").is_ok());
        let pair = m.record_pair("test-left", "test-right", 7, 8, 1500, 1500);
        assert_eq!(pair.left.name, "test-left");
        assert_eq!(pair.right.name, "test-right");
        assert_eq!(pair.left.peer_index, Some(8));
        match m.check_new_pair("test-right", "x") {
            Err(VethError::AlreadyExists(n)) => assert_eq!(n, "test-right/x"),
            _ => panic!("expected an existing pair"),
        }
        match m.check_new_pair("a", "-bad") {
            Err(VethError::InvalidName(n)) => assert_eq!(n, "-bad"),
            _ => panic!("expected an invalid name"),
        }
        m.record_namespace("test-right", "ns_b");
        assert_eq!(m.interface_namespace("test-right").as_deref(), Some("ns_b"));
        assert_eq!(m.interface_namespace("test-left"), None);
        m.record_mtu("test-left", 9000);
        let listed = m.list_pairs();
        assert_eq!(listed.len(), 1);
        let taken = m.take_pair("test-right").unwrap();
        assert_eq!(taken.right.namespace.as_deref(), Some("ns_b"));
        assert!(m.list_pairs().is_empty());
        assert!(m.check_new_pair("test-left", "test-right").is_ok());
        match m.take_pair("test-left") {
            Err(VethError::NotFound(n)) => assert_eq!(n, "test-left"),
            _ => panic!("expected a missing pair"),
        }
    });
}

#[test]
fn pairs_are_listed_once_by_left_name() {
    with_manager(|m| {
        m.record_pair("b0", "b1", 1, 2, 1500, 1500);
        m.record_pair("a0", "a1", 3, 4, 1500, 1500);
        let names: Vec<String> = m.list_pairs().iter().map(|p| p.left.name.clone()).collect();
        assert_eq!(names, vec!["a0", "b0"]);
    });
}

#[test]
fn ascii_names_follow_the_byte_rules() {
    assert!(is_valid_interface_name("a"));
    assert!(is_valid_interface_name("abcdefghijklmno"));
    assert!(!is_valid_interface_name("abcdefghijklmnop"));
    assert!(is_valid_interface_name("_x.y-z"));
    assert!(is_valid_interface_name("9"));
    assert!(!is_valid_interface_name("a b"));
    assert!(!is_valid_interface_name("a/b"));
}
