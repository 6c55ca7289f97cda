use std::sync::Arc;

use rist_netsim::netns_testbench::qdisc::QdiscManager;
use rist_netsim::netns_testbench::runtime::{
    complete_markov_transition, get_next_spec, load_replay_trace, trace_csv_error, trace_format,
    trace_format_for, trace_json_error, trace_read_error, LinkRuntime, MarkovState, RuntimeError, Schedule,
    ScheduleAction, SpecChoice, TraceFormat,
};

const SEC: u128 = 1_000_000_000;

fn runtime(schedule: Schedule) -> LinkRuntime {
    LinkRuntime::new("test".to_string(), 1, Arc::new(QdiscManager::new()), schedule)
}

#[test]
fn test_constant_schedule() {
    let mut runtime = runtime(Schedule::Constant);

    // First call should return the spec immediately
    let result = get_next_spec(&mut runtime, 0, 0).unwrap();
    assert_eq!(result, ScheduleAction::Apply { choice: SpecChoice::Constant, delay_ns: 0 });

    // Second call should return None
    let result = get_next_spec(&mut runtime, SEC, SEC).unwrap();
    assert_eq!(result, ScheduleAction::Finished);
}

#[test]
fn test_steps_schedule() {
    // good at 0 s, poor at 30 s, good at 60 s
    let mut runtime = runtime(Schedule::Steps(vec![0, 30 * SEC, 60 * SEC]));

    // At time 0, should get first step immediately
    let result = get_next_spec(&mut runtime, 0, 0).unwrap();
    assert_eq!(result, ScheduleAction::Apply { choice: SpecChoice::Step(0), delay_ns: 0 });

    // At time 10s, should get next step (the poor spec) with 20s delay
    let result = get_next_spec(&mut runtime, 10 * SEC, 10 * SEC).unwrap();
    assert_eq!(result, ScheduleAction::Apply { choice: SpecChoice::Step(1), delay_ns: 20 * SEC });

    // At time 70s, should be done
    let result = get_next_spec(&mut runtime, 70 * SEC, 70 * SEC).unwrap();
    assert_eq!(result, ScheduleAction::Finished);
}

#[test]
fn test_markov_schedule() {
    // states good and poor, start in good, mean dwell 10 s
    let mut runtime = runtime(Schedule::Markov {
        num_states: 2,
        initial_state: 0,
        mean_dwell_ns: 10 * SEC,
    });

    // First call should initialize and return initial state
    let result = get_next_spec(&mut runtime, 0, 5 * SEC).unwrap();
    // Should be in initial state (good)
    assert_eq!(result, ScheduleAction::Apply { choice: SpecChoice::State(0), delay_ns: 10 * SEC });

    // Markov state should be initialized
    assert!(runtime.markov_state.is_some());
    assert_eq!(
        runtime.markov_state,
        Some(MarkovState { current_state: 0, next_transition_ns: 15 * SEC })
    );
}

#[test]
fn test_replay_schedule_missing_file() {
    let mut runtime = runtime(Schedule::Replay { path: "/nonexistent/file.json".into() });

    // The trace has to be loaded first
    let step = get_next_spec(&mut runtime, 0, 0).unwrap();
    assert_eq!(step, ScheduleAction::LoadTrace);

    // Should fail to initialize with missing file
    let missing = trace_read_error("No such file or directory (os error 2)");
    let result = load_replay_trace(&mut runtime, Err(missing));
    assert!(result.is_err());
    assert!(runtime.replay_state.is_none());
}

#[test]
fn test_markov_schedule_invalid_initial_state() {
    let mut runtime = runtime(Schedule::Markov {
        num_states: 2,
        initial_state: 5, // Invalid initial state (index out of bounds)
        mean_dwell_ns: 10 * SEC,
    });

    // Should not panic on invalid initial state: it defaults to the last valid state
    let result = get_next_spec(&mut runtime, 0, 0);
    assert_eq!(
        result.unwrap(),
        ScheduleAction::Apply { choice: SpecChoice::State(1), delay_ns: 10 * SEC }
    );
}

#[test]
fn test_markov_schedule_invalid_transition_matrix() {
    // The transition rows are drawn from by the caller; the schedule itself
    // starts in its initial state whatever the rows hold.
    let mut runtime = runtime(Schedule::Markov {
        num_states: 2,
        initial_state: 0,
        mean_dwell_ns: 10 * SEC,
    });

    let result = get_next_spec(&mut runtime, 0, 0);
    match result {
        Ok(ScheduleAction::Apply { choice, .. }) => assert_eq!(choice, SpecChoice::State(0)),
        Ok(_) => panic!("expected the initial state to apply"),
        Err(_) => panic!("a valid state count is accepted"),
    }
}

#[test]
fn test_steps_schedule_empty() {
    let mut runtime = runtime(Schedule::Steps(vec![]));

    // Empty steps schedule should return None immediately
    let result = get_next_spec(&mut runtime, 0, 0).unwrap();
    assert_eq!(result, ScheduleAction::Finished);
}

#[test]
fn test_steps_schedule_unordered() {
    // Create unordered steps
    let mut runtime = runtime(Schedule::Steps(vec![60 * SEC, 0, 30 * SEC]));

    // The first step in list order that is not in the past applies
    let result = get_next_spec(&mut runtime, 10 * SEC, 10 * SEC);
    match result {
        Ok(ScheduleAction::Apply { choice, delay_ns }) => {
            assert_eq!(choice, SpecChoice::Step(0));
            assert_eq!(delay_ns, 50 * SEC);
        }
        _ => panic!("expected a step"),
    }
}

#[test]
fn markov_without_states_is_rejected() {
    let mut runtime = runtime(Schedule::Markov { num_states: 0, initial_state: 0, mean_dwell_ns: SEC });
    match get_next_spec(&mut runtime, 0, 0) {
        Err(RuntimeError::InvalidSchedule(m)) => assert_eq!(m, "Markov schedule has no states"),
        _ => panic!("expected an invalid schedule"),
    }
}

#[test]
fn markov_transition_is_drawn_when_due() {
    let mut runtime = runtime(Schedule::Markov { num_states: 2, initial_state: 0, mean_dwell_ns: 10 * SEC });
    let _ = get_next_spec(&mut runtime, 0, 0).unwrap();
    // at the transition time the caller is asked to draw the next state
    let due = get_next_spec(&mut runtime, 10 * SEC, 10 * SEC).unwrap();
    assert_eq!(due, ScheduleAction::DrawTransition { current_state: 0 });
    let applied = complete_markov_transition(&mut runtime, 1, 10 * SEC, 4 * SEC);
    assert_eq!(applied, ScheduleAction::Apply { choice: SpecChoice::State(1), delay_ns: 0 });
    assert_eq!(
        runtime.markov_state,
        Some(MarkovState { current_state: 1, next_transition_ns: 14 * SEC })
    );
    // a drawn state without a spec applies the typical spec
    let applied = complete_markov_transition(&mut runtime, 7, 14 * SEC, SEC);
    assert_eq!(applied, ScheduleAction::Apply { choice: SpecChoice::Typical, delay_ns: 0 });
}

#[test]
fn replay_walks_the_trace_in_order() {
    let mut runtime = runtime(Schedule::Replay { path: "trace.json".into() });
    assert_eq!(get_next_spec(&mut runtime, 0, 0).unwrap(), ScheduleAction::LoadTrace);
    load_replay_trace(&mut runtime, Ok(vec![0, 5 * SEC, 9 * SEC])).unwrap();
    // an entry due now applies at once and the position moves past it
    assert_eq!(
        get_next_spec(&mut runtime, 0, 0).unwrap(),
        ScheduleAction::Apply { choice: SpecChoice::Trace(0), delay_ns: 0 }
    );
    assert_eq!(runtime.replay_state.as_ref().unwrap().current_index, 1);
    // a later entry applies after the time left until it
    assert_eq!(
        get_next_spec(&mut runtime, 2 * SEC, 2 * SEC).unwrap(),
        ScheduleAction::Apply { choice: SpecChoice::Trace(1), delay_ns: 3 * SEC }
    );
    // entries in the past are skipped
    assert_eq!(
        get_next_spec(&mut runtime, 6 * SEC, 6 * SEC).unwrap(),
        ScheduleAction::Apply { choice: SpecChoice::Trace(2), delay_ns: 3 * SEC }
    );
    assert_eq!(get_next_spec(&mut runtime, 10 * SEC, 10 * SEC).unwrap(), ScheduleAction::Finished);
    assert_eq!(runtime.replay_state.as_ref().unwrap().current_index, 3);
}

#[test]
fn trace_files_are_read_by_extension_or_content() {
    assert_eq!(trace_format("trace.json", "time,rate"), TraceFormat::Json);
    assert_eq!(trace_format("trace.txt", "  \n [1, 2]"), TraceFormat::Json);
    assert_eq!(trace_format("trace", "{ invalid json }"), TraceFormat::Json);
    assert_eq!(trace_format("trace.csv", "time,rate\n0,1000\n30,2000\n"), TraceFormat::Csv);
    assert_eq!(trace_format(".json", ""), TraceFormat::Csv);
}

#[test]
fn trace_error_messages() {
    match trace_json_error("expected value at line 1 column 3") {
        RuntimeError::InvalidSchedule(m) => {
            assert!(m.contains("Invalid JSON"));
            assert_eq!(m, "Invalid JSON trace file: expected value at line 1 column 3");
        }
        _ => panic!("expected an invalid schedule"),
    }
    match trace_csv_error() {
        RuntimeError::InvalidSchedule(m) => assert!(m.contains("CSV trace files not yet implemented")),
        _ => panic!("expected an invalid schedule"),
    }
    match trace_read_error("denied") {
        RuntimeError::InvalidSchedule(m) => assert_eq!(m, "Cannot read trace file: denied"),
        _ => panic!("expected an invalid schedule"),
    }
}

#[test]
fn markov_initial_state_is_kept_when_valid() {
    let mut runtime = runtime(Schedule::Markov { num_states: 3, initial_state: 2, mean_dwell_ns: SEC });
    assert_eq!(
        get_next_spec(&mut runtime, 0, 0).unwrap(),
        ScheduleAction::Apply { choice: SpecChoice::State(2), delay_ns: SEC }
    );
}

#[test]
fn trace_format_from_the_extension() {
    assert_eq!(trace_format_for(Some("json"), "time,rate"), TraceFormat::Json);
    assert_eq!(trace_format_for(Some("csv"), "time,rate"), TraceFormat::Csv);
    assert_eq!(trace_format_for(None, "\t{\"a\": 1}"), TraceFormat::Json);
    assert_eq!(trace_format_for(Some("JSON"), "0,1"), TraceFormat::Csv);
    assert_eq!(trace_format_for(None, ""), TraceFormat::Csv);
}
