use rist_netsim::bench_cli::{resolve_preset, resolve_scenario, ResolveError, ScenarioId};

#[test]
fn test_resolve_preset() {
    // Test valid presets
    assert!(resolve_preset(Some("good".to_string())).is_ok());
    assert!(resolve_preset(Some("poor".to_string())).is_ok());
    assert!(resolve_preset(Some("lte".to_string())).is_ok());
    assert!(resolve_preset(Some("bonding".to_string())).is_ok());
    assert!(resolve_preset(None).is_ok());

    // Test invalid preset
    assert!(resolve_preset(Some("invalid".to_string())).is_err());

    // Test specific preset resolution
    let good_scenario = resolve_preset(Some("good".to_string())).unwrap();
    assert_eq!(good_scenario.name(), "baseline_good");

    let default_scenario = resolve_preset(None).unwrap();
    assert_eq!(default_scenario.name(), "baseline_good");
}

#[test]
fn test_resolve_scenario() {
    // Test valid scenarios
    assert!(resolve_scenario("baseline_good").is_ok());
    assert!(resolve_scenario("bonding_asymmetric").is_ok());
    assert!(resolve_scenario("mobile_handover").is_ok());
    assert!(resolve_scenario("degrading_network").is_ok());
    assert!(resolve_scenario("nr_to_lte_handover").is_ok());
    assert!(resolve_scenario("nr_mmwave_mobility").is_ok());
    assert!(resolve_scenario("nr_network_slicing").is_ok());
    assert!(resolve_scenario("nr_carrier_aggregation_test").is_ok());
    assert!(resolve_scenario("nr_beamforming_interference").is_ok());

    // Test invalid scenario
    assert!(resolve_scenario("nonexistent_scenario").is_err());

    // Test specific scenario resolution
    let scenario = resolve_scenario("baseline_good").unwrap();
    assert_eq!(scenario.name(), "baseline_good");

    let mobile_scenario = resolve_scenario("mobile_handover").unwrap();
    assert_eq!(mobile_scenario.name(), "mobile_handover");
}

#[test]
fn test_preset_scenario_consistency() {
    // Test that preset mappings are consistent
    let good_via_preset = resolve_preset(Some("good".to_string())).unwrap();
    let good_via_scenario = resolve_scenario("baseline_good").unwrap();
    assert_eq!(good_via_preset.name(), good_via_scenario.name());

    let poor_via_preset = resolve_preset(Some("poor".to_string())).unwrap();
    let poor_via_scenario = resolve_scenario("degrading_network").unwrap();
    assert_eq!(poor_via_preset.name(), poor_via_scenario.name());

    let lte_via_preset = resolve_preset(Some("lte".to_string())).unwrap();
    let lte_via_scenario = resolve_scenario("mobile_handover").unwrap();
    assert_eq!(lte_via_preset.name(), lte_via_scenario.name());

    let bonding_via_preset = resolve_preset(Some("bonding".to_string())).unwrap();
    let bonding_via_scenario = resolve_scenario("bonding_asymmetric").unwrap();
    assert_eq!(bonding_via_preset.name(), bonding_via_scenario.name());
}

#[test]
fn test_error_messages() {
    // Test that error messages are descriptive
    let invalid_preset_result = resolve_preset(Some("invalid_preset".to_string()));
    assert!(invalid_preset_result.is_err());
    let err_msg = invalid_preset_result.unwrap_err().message();
    assert!(err_msg.contains("invalid_preset"));

    let invalid_scenario_result = resolve_scenario("invalid_scenario");
    assert!(invalid_scenario_result.is_err());
    let err_msg = invalid_scenario_result.unwrap_err().message();
    assert!(err_msg.contains("invalid_scenario"));
}

#[test]
fn preset_names_map_to_their_scenarios() {
    assert_eq!(resolve_preset(Some("good".to_string())).unwrap(), ScenarioId::BaselineGood);
    assert_eq!(resolve_preset(Some("poor".to_string())).unwrap(), ScenarioId::DegradingNetwork);
    assert_eq!(resolve_preset(Some("lte".to_string())).unwrap(), ScenarioId::MobileHandover);
    assert_eq!(resolve_preset(Some("bonding".to_string())).unwrap(), ScenarioId::BondingAsymmetric);
    assert_eq!(resolve_preset(None).unwrap(), ScenarioId::BaselineGood);
}

#[test]
fn every_scenario_resolves_by_its_name() {
    let all = [
        ScenarioId::BaselineGood,
        ScenarioId::BondingAsymmetric,
        ScenarioId::MobileHandover,
        ScenarioId::DegradingNetwork,
        ScenarioId::NrToLteHandover,
        ScenarioId::NrMmwaveMobility,
        ScenarioId::NrNetworkSlicing,
        ScenarioId::NrCarrierAggregationTest,
        ScenarioId::NrBeamformingInterference,
    ];
    for id in all {
        assert_eq!(resolve_scenario(&id.name()).unwrap(), id);
    }
}

#[test]
fn unknown_names_give_exact_messages() {
    match resolve_preset(Some("fast".to_string())) {
        Err(e @ ResolveError::UnknownPreset(_)) => assert_eq!(e.message(), "Unknown preset: fast"),
        _ => panic!("expected an unknown preset"),
    }
    match resolve_scenario("my_file.json") {
        Err(e @ ResolveError::ScenarioNotFound(_)) => assert_eq!(
            e.message(),
            "Scenario 'my_file.json' not found. File loading not yet implemented."
        ),
        _ => panic!("expected a missing scenario"),
    }
    // names are matched exactly
    assert!(resolve_preset(Some("Good".to_string())).is_err());
    assert!(resolve_scenario("baseline_good ").is_err());
}

#[test]
fn test_all_preset_names_are_valid() {
    let preset_names = vec!["good", "poor", "lte", "bonding"];

    for preset_name in preset_names {
        let result = resolve_preset(Some(preset_name.to_string()));
        assert!(result.is_ok(), "Preset '{}' should be valid", preset_name);

        let scenario = result.unwrap();
        assert!(!scenario.name().is_empty(), "Preset '{}' should have a name", preset_name);
    }
}

#[test]
fn test_all_scenario_names_are_valid() {
    let scenario_names = vec![
        "baseline_good",
        "bonding_asymmetric",
        "mobile_handover",
        "degrading_network",
        "nr_to_lte_handover",
        "nr_mmwave_mobility",
        "nr_network_slicing",
        "nr_carrier_aggregation_test",
        "nr_beamforming_interference",
    ];

    for scenario_name in scenario_names {
        let result = resolve_scenario(scenario_name);
        assert!(result.is_ok(), "Scenario '{}' should be valid", scenario_name);

        let scenario = result.unwrap();
        assert_eq!(scenario.name(), scenario_name);
    }
}
