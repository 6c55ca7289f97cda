use rist_netsim::demos::{
    bonding_addresses, bus_stats_line, dynbitrate_line, is_rist_stats_name, other_parts,
    pipeline_error_message, receiver_parts, sender_parts, stats_kind, stats_line, StatsKind,
};

#[test]
fn bonding_address_lists() {
    assert_eq!(bonding_addresses("127.0.0.1", &[5000, 5002]), "127.0.0.1:5000,127.0.0.1:5002");
    assert_eq!(bonding_addresses("0.0.0.0", &[7000]), "0.0.0.0:7000");
    assert_eq!(bonding_addresses("h", &[]), "");
}

#[test]
fn rist_statistics_are_recognised_by_name() {
    assert!(is_rist_stats_name("RIST/x-Sender-Stats"));
    assert!(is_rist_stats_name("rist/x-receiver-stats"));
    assert!(!is_rist_stats_name("dynbitrate/current-bitrate"));
    assert_eq!(stats_kind("RIST/X-SENDER-STATS"), StatsKind::Sender);
    assert_eq!(stats_kind("rist/x-receiver-stats"), StatsKind::Receiver);
    assert_eq!(stats_kind("rist/x-session-stats"), StatsKind::Other);
}

#[test]
fn statistics_summaries() {
    let parts = sender_parts(Some(100), Some(3));
    assert_eq!(parts, vec!["sent=100", "rtx=3"]);
    assert_eq!(
        stats_line("ristsink0", "rist/x-sender-stats", &parts),
        Some("[ristsink0] rist/x-sender-stats: sent=100, rtx=3".to_string())
    );
    let parts = receiver_parts(Some(90), None, Some(1), None, Some("12"));
    assert_eq!(parts, vec!["rx=90", "dup=1", "rtt=12ms"]);
    assert_eq!(stats_line("src", "n", &vec![]), None);
    assert_eq!(
        dynbitrate_line(Some("enc"), "DynBitrate/Current-Bitrate", 2500),
        Some("[enc] Current encoder bitrate: 2500 kbps".to_string())
    );
    assert_eq!(
        dynbitrate_line(None, "dynbitrate/current-bitrate", 800),
        Some("Current encoder bitrate: 800 kbps".to_string())
    );
    assert_eq!(dynbitrate_line(None, "other", 1), None);
    assert_eq!(pipeline_error_message("Sender", "boom", "details"), "Sender error: boom - details");
}

#[test]
fn bus_statistics_lines() {
    let parts = sender_parts(Some(10), Some(2));
    assert_eq!(
        bus_stats_line(Some("ristsink0"), "rist/x-sender-stats", &parts),
        "[ristsink0] rist/x-sender-stats: sent=10, rtx=2"
    );
    assert_eq!(bus_stats_line(None, "rist/x-sender-stats", &parts), "rist/x-sender-stats: sent=10, rtx=2");
    assert_eq!(bus_stats_line(Some("ristsrc0"), "rist/x-other-stats", &vec![]), "[ristsrc0] rist/x-other-stats");
    assert_eq!(bus_stats_line(None, "rist/x-other-stats", &vec![]), "rist/x-other-stats");
}

#[test]
fn other_statistics_parts() {
    assert_eq!(
        other_parts(Some("12"), Some("0.50"), Some(800), Some(-5), Some(3)),
        vec!["rtt=12ms", "loss=0.50%", "in=800 kbps", "out=-5 kbps", "sessions=3"]
    );
    assert_eq!(other_parts(None, None, None, Some(i64::MIN), None), vec!["out=-9223372036854775808 kbps"]);
    assert!(other_parts(None, None, None, None, None).is_empty());
    assert_eq!(other_parts(None, Some("1"), None, None, Some(-1)), vec!["loss=1%", "sessions=-1"]);
}
