use rist_netsim::integration::{
    netns_receiver_address, pipeline_setup_message, validate_bonding_behavior, FreePortSearch,
    PhaseChecks, PipelineSetupError, PortProbe, ValidationReport,
};

#[test]
fn report_passes_only_when_every_check_does() {
    let mut r = ValidationReport::new();
    assert!(!r.all_passed());
    r.adaptive_bitrate_working = true;
    r.bonding_effective = true;
    assert!(!r.all_passed());
    r.load_balancing_working = true;
    assert!(r.all_passed());
}

#[test]
fn port_search_starts_even_and_steps_by_two() {
    let (mut s, p) = FreePortSearch::start(5001);
    assert_eq!(p, PortProbe::Try { port: 5002, second: 5003 });
    assert_eq!(s.next(false), PortProbe::Try { port: 5004, second: 5005 });
    assert_eq!(s.next(true), PortProbe::Done { port: 5004 });
    let (_, p) = FreePortSearch::start(6000);
    assert_eq!(p, PortProbe::Try { port: 6000, second: 6001 });
}

#[test]
fn port_search_gives_up_after_fifty_candidates() {
    let (mut s, _) = FreePortSearch::start(40000);
    let mut last = PortProbe::Done { port: 0 };
    for _ in 0..50 {
        last = s.next(false);
    }
    assert_eq!(last, PortProbe::Done { port: 5600 });
    // near the top the candidates saturate
    let (mut s, p) = FreePortSearch::start(65534);
    assert_eq!(p, PortProbe::Try { port: 65534, second: 65535 });
    assert_eq!(s.next(false), PortProbe::Try { port: 65535, second: 65535 });
}

#[test]
fn netns_pipeline_checks() {
    let ids = vec!["link_1".to_string(), "link_2".to_string()];
    assert_eq!(netns_receiver_address(5000, &ids).unwrap(), [10, 0, 0, 12]);
    assert_eq!(netns_receiver_address(5000, &vec!["link_3".to_string()]).unwrap(), [10, 0, 0, 20]);
    let e = netns_receiver_address(5001, &ids).unwrap_err();
    assert!(matches!(e, PipelineSetupError::OddRtpPort(5001)));
    assert_eq!(pipeline_setup_message(&e), "RIST requires an even RTP port; got 5001");
    let e = netns_receiver_address(5000, &vec![]).unwrap_err();
    assert!(matches!(e, PipelineSetupError::NoActiveLinks));
    assert_eq!(pipeline_setup_message(&e), "No active links. Call setup_bonding() first.");
    for bad in ["bond_1", "link_", "link_x", "link_256", "lin"] {
        let e = netns_receiver_address(5000, &vec![bad.to_string()]).unwrap_err();
        assert_eq!(pipeline_setup_message(&e), format!("Invalid link_id format: {}", bad));
    }
    let e = netns_receiver_address(5000, &vec!["link_0".to_string()]).unwrap_err();
    assert!(matches!(e, PipelineSetupError::Subnet(_)));
    assert_eq!(
        pipeline_setup_message(&e),
        "Failed to compute link subnet: Invalid network configuration: Link ID cannot be 0"
    );
    let e = netns_receiver_address(5000, &vec!["link_62".to_string()]).unwrap_err();
    assert_eq!(
        pipeline_setup_message(&e),
        "Failed to compute link subnet: Invalid network configuration: Link ID 62 too high"
    );
    assert_eq!(netns_receiver_address(5000, &vec!["link_61".to_string()]).unwrap(), [10, 0, 0, 252]);
}

fn phase(name: &str, low: bool, high: bool, loss_ok: bool, balanced: bool) -> PhaseChecks {
    PhaseChecks {
        phase: name.to_string(),
        bitrate_below_1000: low,
        bitrate_above_1500: high,
        loss_below_5: loss_ok,
        utilization_balanced: balanced,
    }
}

#[test]
fn bonding_validation_verdicts() {
    let all_good = vec![
        phase("degraded", true, false, true, true),
        phase("handover", false, false, true, true),
        phase("recovery", false, true, true, true),
    ];
    assert!(validate_bonding_behavior(&all_good).all_passed());

    let bad_handover = vec![phase("handover", false, false, false, true)];
    let r = validate_bonding_behavior(&bad_handover);
    assert!(!r.bonding_effective);
    // a phase other than degraded or recovery counts as adapting
    assert!(r.adaptive_bitrate_working);
    assert!(r.load_balancing_working);

    let no_adapt = vec![phase("degraded", false, true, true, true), phase("recovery", true, false, true, false)];
    let r = validate_bonding_behavior(&no_adapt);
    assert!(!r.adaptive_bitrate_working);
    assert!(r.bonding_effective);
    assert!(!r.load_balancing_working);

    let r = validate_bonding_behavior(&vec![]);
    assert!(!r.adaptive_bitrate_working);
    assert!(r.bonding_effective && r.load_balancing_working);
}
