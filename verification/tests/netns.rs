use rist_netsim::netns_testbench::netns::{proc_net_path_of, NamespaceTable, NetNsError};

#[test]
fn namespaces_are_created_once_and_forgotten() {
    let mut t = NamespaceTable::new();
    assert!(t.check_create("test-ns", false).is_ok());
    t.record("test-ns");
    assert!(t.namespace_exists("test-ns"));
    // Try to create duplicate - should fail
    match t.check_create("test-ns", false) {
        Err(NetNsError::AlreadyExists(n)) => assert_eq!(n, "test-ns"),
        _ => panic!("expected an existing namespace"),
    }
    // a leftover file blocks creation too
    assert!(matches!(t.check_create("other", true), Err(NetNsError::AlreadyExists(_))));
    t.record("other");
    assert_eq!(t.list_namespaces(), vec!["test-ns".to_string(), "other".to_string()]);
    t.forget("test-ns");
    assert!(!t.namespace_exists("test-ns"));
    assert_eq!(t.list_namespaces(), vec!["other".to_string()]);
    assert!(matches!(t.lookup("test-ns"), Err(NetNsError::NotFound(_))));
    assert!(t.lookup("other").is_ok());
    assert!(NamespaceTable::check_delete("x", true).is_ok());
    match NamespaceTable::check_delete("x", false) {
        Err(NetNsError::NotFound(n)) => assert_eq!(n, "x"),
        _ => panic!("expected a missing namespace"),
    }
}

#[test]
fn process_namespace_path() {
    assert_eq!(proc_net_path_of(1234), "/proc/1234/ns/net");
}
