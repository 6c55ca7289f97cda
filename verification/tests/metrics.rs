use rist_netsim::observability::metrics::{snapshot_totals, LinkFigures, TrafficCounters};

#[test]
fn test_link_metrics_collector_traffic_recording() {
    let mut collector = TrafficCounters::new();

    // Record some traffic
    collector.record_traffic(1000, 2000, 10, 20, 1);

    // Check that counters are updated
    assert_eq!(collector.bytes_sent, 1000);
    assert_eq!(collector.bytes_received, 2000);
    assert_eq!(collector.packets_sent, 10);
    assert_eq!(collector.packets_received, 20);
    assert_eq!(collector.packets_dropped, 1);

    // Record more traffic to test accumulation
    collector.record_traffic(500, 1000, 5, 10, 2);

    assert_eq!(collector.bytes_sent, 1500);
    assert_eq!(collector.bytes_received, 3000);
    assert_eq!(collector.packets_sent, 15);
    assert_eq!(collector.packets_received, 30);
    assert_eq!(collector.packets_dropped, 3);
}

#[test]
fn counters_wrap_around() {
    let mut c = TrafficCounters::new();
    c.record_traffic(u64::MAX, 0, 0, 0, 0);
    c.record_traffic(2, 0, 0, 0, 0);
    assert_eq!(c.bytes_sent, 1);
}

#[test]
fn snapshot_totals_add_up_links() {
    let mut a = TrafficCounters::new();
    a.record_traffic(100, 200, 1, 2, 0);
    let mut b = TrafficCounters::new();
    b.record_traffic(50, 25, 3, 4, 5);
    let links = vec![
        LinkFigures { counters: a, throughput_bps: 1000 },
        LinkFigures { counters: b, throughput_bps: 500 },
    ];
    let t = snapshot_totals(&links);
    assert_eq!(t.total_bytes_sent, 150);
    assert_eq!(t.total_bytes_received, 225);
    assert_eq!(t.total_packets_sent, 4);
    assert_eq!(t.total_packets_received, 6);
    assert_eq!(t.total_drops, 5);
    assert_eq!(t.total_throughput_bps, 1500);
    assert_eq!(t.active_links, 2);

    let empty = snapshot_totals(&vec![]);
    assert_eq!(empty.total_bytes_sent, 0);
    assert_eq!(empty.active_links, 0);
}

#[test]
fn two_recordings_count_as_their_sum() {
    let mut twice = TrafficCounters::new();
    twice.record_traffic(u64::MAX - 1, 5, 1, 1, 1);
    twice.record_traffic(10, 6, 2, 2, 2);
    let mut once = TrafficCounters::new();
    once.record_traffic((u64::MAX - 1).wrapping_add(10), 11, 3, 3, 3);
    assert_eq!(twice, once);
}

#[test]
fn totals_ignore_link_order_and_add_over_groups() {
    let mut a = TrafficCounters::new();
    a.record_traffic(100, 200, 1, 2, 0);
    let mut b = TrafficCounters::new();
    b.record_traffic(50, 25, 3, 4, 5);
    let mut c = TrafficCounters::new();
    c.record_traffic(7, 8, 9, 10, 11);
    let fa = LinkFigures { counters: a, throughput_bps: 1000 };
    let fb = LinkFigures { counters: b, throughput_bps: 500 };
    let fc = LinkFigures { counters: c, throughput_bps: 3 };
    let one = snapshot_totals(&vec![fa, fb, fc]);
    let other = snapshot_totals(&vec![fc, fa, fb]);
    assert_eq!(one, other);
    let ab = snapshot_totals(&vec![fa, fb]);
    let only_c = snapshot_totals(&vec![fc]);
    assert_eq!(one.total_bytes_sent, ab.total_bytes_sent + only_c.total_bytes_sent);
    assert_eq!(one.total_drops, ab.total_drops + only_c.total_drops);
    assert_eq!(one.total_throughput_bps, ab.total_throughput_bps + only_c.total_throughput_bps);
    assert_eq!(one.active_links, 3);
}
