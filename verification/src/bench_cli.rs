//! Name resolution of the command-line tool: built-in presets and named
//! scenarios map to the scenario that the testbench runs.

use vstd::prelude::*;
use vstd::string::*;

use crate::text::{push_str, str_eq};

verus! {

/// The scenarios the tool knows by name.
#[derive(Clone, Copy, Debug, PartialEq, Eq, Structural)]
pub enum ScenarioId {
    BaselineGood,
    BondingAsymmetric,
    MobileHandover,
    DegradingNetwork,
    NrToLteHandover,
    NrMmwaveMobility,
    NrNetworkSlicing,
    NrCarrierAggregationTest,
    NrBeamformingInterference,
}

/// The name of a scenario.
pub open spec fn scenario_name(id: ScenarioId) -> Seq<char> {
    match id {
        ScenarioId::BaselineGood => "baseline_good"@,
        ScenarioId::BondingAsymmetric => "bonding_asymmetric"@,
        ScenarioId::MobileHandover => "mobile_handover"@,
        ScenarioId::DegradingNetwork => "degrading_network"@,
        ScenarioId::NrToLteHandover => "nr_to_lte_handover"@,
        ScenarioId::NrMmwaveMobility => "nr_mmwave_mobility"@,
        ScenarioId::NrNetworkSlicing => "nr_network_slicing"@,
        ScenarioId::NrCarrierAggregationTest => "nr_carrier_aggregation_test"@,
        ScenarioId::NrBeamformingInterference => "nr_beamforming_interference"@,
    }
}

/// The scenario a name stands for, if any.
pub open spec fn scenario_for_name(s: Seq<char>) -> Option<ScenarioId> {
    if s == "baseline_good"@ {
        Some(ScenarioId::BaselineGood)
    } else if s == "bonding_asymmetric"@ {
        Some(ScenarioId::BondingAsymmetric)
    } else if s == "mobile_handover"@ {
        Some(ScenarioId::MobileHandover)
    } else if s == "degrading_network"@ {
        Some(ScenarioId::DegradingNetwork)
    } else if s == "nr_to_lte_handover"@ {
        Some(ScenarioId::NrToLteHandover)
    } else if s == "nr_mmwave_mobility"@ {
        Some(ScenarioId::NrMmwaveMobility)
    } else if s == "nr_network_slicing"@ {
        Some(ScenarioId::NrNetworkSlicing)
    } else if s == "nr_carrier_aggregation_test"@ {
        Some(ScenarioId::NrCarrierAggregationTest)
    } else if s == "nr_beamforming_interference"@ {
        Some(ScenarioId::NrBeamformingInterference)
    } else {
        None
    }
}

/// The scenario a built-in preset stands for, if any.
pub open spec fn scenario_for_preset(p: Seq<char>) -> Option<ScenarioId> {
    if p == "good"@ {
        Some(ScenarioId::BaselineGood)
    } else if p == "poor"@ {
        Some(ScenarioId::DegradingNetwork)
    } else if p == "lte"@ {
        Some(ScenarioId::MobileHandover)
    } else if p == "bonding"@ {
        Some(ScenarioId::BondingAsymmetric)
    } else {
        None
    }
}

impl ScenarioId {
    /// The name of this scenario.
    pub fn name(&self) -> (r: String)
        ensures
            r@ == scenario_name(*self),
    {
        match self {
            ScenarioId::BaselineGood => String::from_str("baseline_good"),
            ScenarioId::BondingAsymmetric => String::from_str("bonding_asymmetric"),
            ScenarioId::MobileHandover => String::from_str("mobile_handover"),
            ScenarioId::DegradingNetwork => String::from_str("degrading_network"),
            ScenarioId::NrToLteHandover => String::from_str("nr_to_lte_handover"),
            ScenarioId::NrMmwaveMobility => String::from_str("nr_mmwave_mobility"),
            ScenarioId::NrNetworkSlicing => String::from_str("nr_network_slicing"),
            ScenarioId::NrCarrierAggregationTest => String::from_str(
                "nr_carrier_aggregation_test",
            ),
            ScenarioId::NrBeamformingInterference => String::from_str(
                "nr_beamforming_interference",
            ),
        }
    }
}

/// Why a name did not resolve.
#[derive(Debug)]
pub enum ResolveError {
    /// A preset name that is not built in.
    UnknownPreset(String),
    /// A scenario name that is not known.
    ScenarioNotFound(String),
}

/// The message of an error.
pub open spec fn resolve_error_message(e: ResolveError) -> Seq<char> {
    match e {
        ResolveError::UnknownPreset(n) => "Unknown preset: "@ + n@,
        ResolveError::ScenarioNotFound(n) => "Scenario '"@ + n@
            + "' not found. File loading not yet implemented."@,
    }
}

impl ResolveError {
    /// The human-readable message of this error.
    pub fn message(&self) -> (r: String)
        ensures
            r@ == resolve_error_message(*self),
    {
        match self {
            ResolveError::UnknownPreset(n) => {
                let mut m = String::from_str("Unknown preset: ");
                push_str(&mut m, n.as_str());
                m
            },
            ResolveError::ScenarioNotFound(n) => {
                let mut m = String::from_str("Scenario '");
                push_str(&mut m, n.as_str());
                push_str(&mut m, "' not found. File loading not yet implemented.");
                m
            },
        }
    }
}

/// Resolves an optional preset name to a scenario; no preset means the
/// good baseline.
pub fn resolve_preset(preset: Option<String>) -> (r: Result<ScenarioId, ResolveError>)
    ensures
        preset is None ==> r == Ok::<ScenarioId, ResolveError>(ScenarioId::BaselineGood),
        preset matches Some(p) ==> (scenario_for_preset(p@) is Some ==> r == Ok::<
            ScenarioId,
            ResolveError,
        >(scenario_for_preset(p@).unwrap())),
        preset matches Some(p) ==> (scenario_for_preset(p@) is None ==> (r matches Err(
            ResolveError::UnknownPreset(n),
        ) && n@ == p@)),
{
    match preset {
        None => Ok(ScenarioId::BaselineGood),
        Some(p) => {
            if str_eq(p.as_str(), "good") {
                Ok(ScenarioId::BaselineGood)
            } else if str_eq(p.as_str(), "poor") {
                Ok(ScenarioId::DegradingNetwork)
            } else if str_eq(p.as_str(), "lte") {
                Ok(ScenarioId::MobileHandover)
            } else if str_eq(p.as_str(), "bonding") {
                Ok(ScenarioId::BondingAsymmetric)
            } else {
                Err(ResolveError::UnknownPreset(p))
            }
        },
    }
}

/// Resolves a scenario name to a scenario.
pub fn resolve_scenario(scenario: &str) -> (r: Result<ScenarioId, ResolveError>)
    ensures
        scenario_for_name(scenario@) is Some ==> r == Ok::<ScenarioId, ResolveError>(
            scenario_for_name(scenario@).unwrap(),
        ),
        scenario_for_name(scenario@) is None ==> (r matches Err(
            ResolveError::ScenarioNotFound(n),
        ) && n@ == scenario@),
{
    if str_eq(scenario, "baseline_good") {
        Ok(ScenarioId::BaselineGood)
    } else if str_eq(scenario, "bonding_asymmetric") {
        Ok(ScenarioId::BondingAsymmetric)
    } else if str_eq(scenario, "mobile_handover") {
        Ok(ScenarioId::MobileHandover)
    } else if str_eq(scenario, "degrading_network") {
        Ok(ScenarioId::DegradingNetwork)
    } else if str_eq(scenario, "nr_to_lte_handover") {
        Ok(ScenarioId::NrToLteHandover)
    } else if str_eq(scenario, "nr_mmwave_mobility") {
        Ok(ScenarioId::NrMmwaveMobility)
    } else if str_eq(scenario, "nr_network_slicing") {
        Ok(ScenarioId::NrNetworkSlicing)
    } else if str_eq(scenario, "nr_carrier_aggregation_test") {
        Ok(ScenarioId::NrCarrierAggregationTest)
    } else if str_eq(scenario, "nr_beamforming_interference") {
        Ok(ScenarioId::NrBeamformingInterference)
    } else {
        Err(ResolveError::ScenarioNotFound(String::from_str(scenario)))
    }
}

/// Every scenario resolves by its own name: a scenario's name is a name
/// that `resolve_scenario` accepts, and it gives that scenario back.
pub proof fn lemma_scenario_name_round_trip(id: ScenarioId)
    ensures
        scenario_for_name(scenario_name(id)) == Some(id),
{
    reveal_strlit("baseline_good");
    reveal_strlit("bonding_asymmetric");
    reveal_strlit("mobile_handover");
    reveal_strlit("degrading_network");
    reveal_strlit("nr_to_lte_handover");
    reveal_strlit("nr_mmwave_mobility");
    reveal_strlit("nr_network_slicing");
    reveal_strlit("nr_carrier_aggregation_test");
    reveal_strlit("nr_beamforming_interference");
    assert("baseline_good"@.len() == 13);
    assert("bonding_asymmetric"@.len() == 18);
    assert("mobile_handover"@.len() == 15);
    assert("degrading_network"@.len() == 17);
    assert("nr_to_lte_handover"@.len() == 18);
    assert("nr_mmwave_mobility"@.len() == 18);
    assert("nr_network_slicing"@.len() == 18);
    assert("nr_carrier_aggregation_test"@.len() == 27);
    assert("nr_beamforming_interference"@.len() == 27);
    assert("bonding_asymmetric"@[0] != "nr_to_lte_handover"@[0]);
    assert("bonding_asymmetric"@[0] != "nr_mmwave_mobility"@[0]);
    assert("bonding_asymmetric"@[0] != "nr_network_slicing"@[0]);
    assert("nr_to_lte_handover"@[3] != "nr_mmwave_mobility"@[3]);
    assert("nr_to_lte_handover"@[3] != "nr_network_slicing"@[3]);
    assert("nr_mmwave_mobility"@[3] != "nr_network_slicing"@[3]);
    assert("nr_carrier_aggregation_test"@[3] != "nr_beamforming_interference"@[3]);
}

/// A preset and the scenario of the same meaning agree: whenever a preset
/// resolves, the name of its scenario resolves to that same scenario.
pub proof fn lemma_preset_scenario_consistency(p: Seq<char>)
    requires
        scenario_for_preset(p) is Some,
    ensures
        scenario_for_name(scenario_name(scenario_for_preset(p).unwrap())) == scenario_for_preset(
            p,
        ),
{
    lemma_scenario_name_round_trip(scenario_for_preset(p).unwrap());
}

} // verus!
