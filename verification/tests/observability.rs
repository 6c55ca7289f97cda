use rist_netsim::observability::exporter::{
    CsvExporter, CsvLink, CsvSnapshot, JsonExporter, PrometheusExporter, RenderedLink,
    RenderedSimulation, RenderedSnapshot,
};
use rist_netsim::observability::gstreamer::BusMessageFilter;
use rist_netsim::observability::server::ObservabilityConfig;

fn rendered_link(id: &str, delay: Option<&str>) -> RenderedLink {
    RenderedLink {
        link_id: id.to_string(),
        bytes_sent: "1000".to_string(),
        bytes_received: "900".to_string(),
        rtt_ms: "12.5".to_string(),
        jitter_ms: "1.25".to_string(),
        loss_rate: "0.01".to_string(),
        throughput_bps: "8000".to_string(),
        queue_depth: "3".to_string(),
        queue_drops: "0".to_string(),
        qdisc_type: "netem".to_string(),
        qdisc_delay_ms: delay.map(|d| d.to_string()),
        qdisc_rate_kbps: None,
        qdisc_loss_pct: None,
    }
}

#[test]
fn prometheus_line_layout() {
    let e = PrometheusExporter::new().unwrap();
    assert_eq!(
        e.format_prometheus_line("_x", "1", &[], "Help text"),
        "# HELP rist_simulation_x Help text\n# TYPE rist_simulation_x gauge\nrist_simulation_x 1\n"
    );
    let e = PrometheusExporter::with_namespace("ns".to_string());
    assert_eq!(
        e.format_prometheus_line("_y", "2.5", &[("a", "1"), ("b", "two")], "H"),
        "# HELP ns_y H\n# TYPE ns_y gauge\nns_y{a=\"1\",b=\"two\"} 2.5\n"
    );
}

#[test]
fn prometheus_export_lists_simulation_then_links() {
    let e = PrometheusExporter::with_namespace("sim".to_string());
    let snap = RenderedSnapshot {
        simulation: RenderedSimulation {
            simulation_id: "id-1".to_string(),
            duration_ms: "5000".to_string(),
            total_bytes_sent: "1000".to_string(),
            total_throughput_bps: "8000".to_string(),
            avg_rtt_ms: "12.5".to_string(),
            avg_loss_rate: "0.01".to_string(),
        },
        links: vec![rendered_link("l1", Some("20")), rendered_link("l2", None)],
    };
    let text = e.export(&snap);
    let samples: Vec<&str> = text.lines().filter(|l| !l.starts_with('#')).collect();
    assert_eq!(samples.len(), 5 + 9 + 8);
    assert_eq!(samples[0], "sim_simulation_duration_ms{simulation_id=\"id-1\"} 5000");
    assert_eq!(samples[4], "sim_avg_loss_rate{simulation_id=\"id-1\"} 0.01");
    assert_eq!(samples[5], "sim_link_bytes_sent{link_id=\"l1\"} 1000");
    assert_eq!(samples[13], "sim_link_qdisc_delay_ms{link_id=\"l1\",qdisc=\"netem\"} 20");
    assert_eq!(samples[14], "sim_link_bytes_sent{link_id=\"l2\"} 1000");
    assert!(text.starts_with(
        "# HELP sim_simulation_duration_ms Total simulation duration in milliseconds\n"
    ));
    assert!(text.contains("# HELP sim_link_qdisc_delay_ms Configured delay for this link's qdisc\n"));
}

#[test]
fn csv_export_rows() {
    let link = CsvLink {
        link_id: "l1".to_string(),
        bytes_sent: 1,
        bytes_received: 2,
        packets_sent: 3,
        packets_received: 4,
        packets_dropped: 5,
        rtt_ms: "6.00".to_string(),
        jitter_ms: "7.50".to_string(),
        loss_rate: "0.0100".to_string(),
        throughput_bps: 8,
        queue_depth: 9,
        queue_drops: 10,
        qdisc_type: "netem".to_string(),
        qdisc_delay_ms: Some(20),
        qdisc_rate_kbps: None,
        qdisc_loss_pct: Some("0.5".to_string()),
    };
    let snap = CsvSnapshot {
        timestamp: "2024-01-02 03:04:05.678".to_string(),
        simulation_id: "sid".to_string(),
        links: vec![link],
    };
    let row = "2024-01-02 03:04:05.678,sid,l1,1,2,3,4,5,6.00,7.50,0.0100,8,9,10,netem,20,,0.5\n";
    assert_eq!(CsvExporter::without_headers().export(&snap), row);
    let with = CsvExporter::new().export(&snap);
    assert!(with.starts_with("timestamp,simulation_id,link_id,"));
    assert!(with.ends_with(row));
    assert_eq!(with.lines().count(), 2);
    let empty = CsvSnapshot { timestamp: "t".to_string(), simulation_id: "s".to_string(), links: vec![] };
    assert_eq!(CsvExporter::without_headers().export(&empty), "");
}

#[test]
fn exporter_settings() {
    assert!(!JsonExporter::new().pretty);
    assert!(JsonExporter::pretty().pretty);
    assert!(CsvExporter::new().include_headers);
    assert!(!CsvExporter::without_headers().include_headers);
}

#[test]
fn bus_filter_keeps_listed_types() {
    let f = BusMessageFilter::new();
    assert!(f.should_collect("rist-dispatcher-metrics"));
    assert!(!f.should_collect("eos"));
    let d = BusMessageFilter::default();
    assert!(d.should_collect("rist-dispatcher-metrics"));
    let g = BusMessageFilter::with_message_types(vec!["a".to_string(), "b".to_string()]);
    assert!(g.should_collect("b"));
    assert!(!g.should_collect("rist-dispatcher-metrics"));
    assert!(!BusMessageFilter::with_message_types(vec![]).should_collect(""));
}

#[test]
fn default_server_config() {
    let c = ObservabilityConfig::default();
    assert_eq!(c.bind_address, "127.0.0.1");
    assert_eq!(c.port, 8080);
    assert!(c.enable_cors);
    assert!(c.dashboard_enabled);
}

#[test]
fn exports_are_per_link() {
    let e = PrometheusExporter::with_namespace("n".to_string());
    let sim = || RenderedSimulation {
        simulation_id: "s".to_string(),
        duration_ms: "1".to_string(),
        total_bytes_sent: "2".to_string(),
        total_throughput_bps: "3".to_string(),
        avg_rtt_ms: "4".to_string(),
        avg_loss_rate: "5".to_string(),
    };
    let both = e.export(&RenderedSnapshot {
        simulation: sim(),
        links: vec![rendered_link("a", None), rendered_link("b", Some("7"))],
    });
    let none = e.export(&RenderedSnapshot { simulation: sim(), links: vec![] });
    let only_a = e.export(&RenderedSnapshot { simulation: sim(), links: vec![rendered_link("a", None)] });
    let only_b = e.export(&RenderedSnapshot { simulation: sim(), links: vec![rendered_link("b", Some("7"))] });
    assert_eq!(both, format!("{}{}", only_a, &only_b[none.len()..]));
}

#[test]
fn prometheus_three_lines_per_gauge() {
    let e = PrometheusExporter::with_namespace("x".to_string());
    let sim = RenderedSimulation {
        simulation_id: "s".to_string(),
        duration_ms: "1".to_string(),
        total_bytes_sent: "2".to_string(),
        total_throughput_bps: "3".to_string(),
        avg_rtt_ms: "4".to_string(),
        avg_loss_rate: "5".to_string(),
    };
    let mut with_all = rendered_link("b", Some("7"));
    with_all.qdisc_rate_kbps = Some("1000".to_string());
    with_all.qdisc_loss_pct = Some("0.5".to_string());
    let text = e.export(&RenderedSnapshot {
        simulation: sim,
        links: vec![rendered_link("a", None), with_all],
    });
    // 5 simulation gauges, 8 per link, 3 configured qdisc values
    assert_eq!(text.lines().count(), 3 * (5 + 8 * 2 + 3));
    assert_eq!(text.matches('\n').count(), 3 * (5 + 8 * 2 + 3));
    let lines: Vec<&str> = text.lines().collect();
    for triple in lines.chunks(3) {
        assert!(triple[0].starts_with("# HELP x_"));
        assert!(triple[1].starts_with("# TYPE x_"));
        assert!(triple[1].ends_with(" gauge"));
        assert!(triple[2].starts_with("x_"));
    }
}

#[test]
fn namespace_is_joined_without_separator() {
    let e = PrometheusExporter::with_namespace("x".to_string());
    let text = e.export(&RenderedSnapshot {
        simulation: RenderedSimulation {
            simulation_id: "id".to_string(),
            duration_ms: "10".to_string(),
            total_bytes_sent: "20".to_string(),
            total_throughput_bps: "30".to_string(),
            avg_rtt_ms: "40".to_string(),
            avg_loss_rate: "50".to_string(),
        },
        links: vec![],
    });
    assert!(text.starts_with("# HELP x_simulation_duration_ms Total simulation duration in milliseconds\n"));
    assert!(text.contains("x_total_bytes_sent{simulation_id=\"id\"} 20\n"));
    let bare = PrometheusExporter::with_namespace("".to_string());
    assert_eq!(
        e.format_prometheus_line("_m", "1", &[], "h"),
        bare.format_prometheus_line("x_m", "1", &[], "h")
    );
}

#[test]
fn csv_one_row_per_link_with_eighteen_fields() {
    let link = |id: &str, delay: Option<u64>| CsvLink {
        link_id: id.to_string(),
        bytes_sent: 100,
        bytes_received: 90,
        packets_sent: 10,
        packets_received: 9,
        packets_dropped: 1,
        rtt_ms: "12.00".to_string(),
        jitter_ms: "1.50".to_string(),
        loss_rate: "0.1000".to_string(),
        throughput_bps: 800,
        queue_depth: 2,
        queue_drops: 0,
        qdisc_type: "htb".to_string(),
        qdisc_delay_ms: delay,
        qdisc_rate_kbps: Some(5000),
        qdisc_loss_pct: None,
    };
    let snap = CsvSnapshot {
        timestamp: "t0".to_string(),
        simulation_id: "sim".to_string(),
        links: vec![link("a", Some(5)), link("b", None), link("c", Some(0))],
    };
    let text = CsvExporter::new().export(&snap);
    let lines: Vec<&str> = text.lines().collect();
    assert_eq!(lines.len(), 1 + 3);
    for l in &lines {
        assert_eq!(l.split(',').count(), 18);
    }
    assert_eq!(lines[2], "t0,sim,b,100,90,10,9,1,12.00,1.50,0.1000,800,2,0,htb,,5000,");
    assert_eq!(CsvExporter::without_headers().export(&snap).lines().count(), 3);
}

#[test]
fn csv_header_names_eighteen_columns() {
    let empty = CsvSnapshot { timestamp: "t".to_string(), simulation_id: "s".to_string(), links: vec![] };
    assert_eq!(
        CsvExporter::new().export(&empty),
        "timestamp,simulation_id,link_id,bytes_sent,bytes_received,packets_sent,packets_received,packets_dropped,rtt_ms,jitter_ms,loss_rate,throughput_bps,queue_depth,queue_drops,qdisc_type,qdisc_delay_ms,qdisc_rate_kbps,qdisc_loss_pct\n"
    );
}
