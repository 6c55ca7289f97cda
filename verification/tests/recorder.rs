use rist_netsim::observability::recorder::{entry_lines, schedule_not_loaded};
use rist_netsim::observability::server::ObservabilityError;

#[test]
fn blank_lines_are_skipped() {
    let content = "{\"a\":1}\n\n   \r\n{\"b\":2}\r\n\t\n{\"c\":3}";
    assert_eq!(entry_lines(content), vec!["{\"a\":1}", "{\"b\":2}", "{\"c\":3}"]);
    assert!(entry_lines("").is_empty());
    assert!(entry_lines("\n\n \n").is_empty());
    // a carriage return is only part of a line ending before a newline
    assert_eq!(entry_lines("x\r"), vec!["x\r"]);
    assert_eq!(entry_lines("x\r\n"), vec!["x"]);
}

#[test]
fn replay_needs_a_loaded_schedule() {
    match schedule_not_loaded() {
        ObservabilityError::Trace(m) => assert_eq!(m, "Schedule not loaded"),
        _ => panic!("expected a trace error"),
    }
}
