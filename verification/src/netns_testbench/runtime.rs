//! Time-varying impairment schedules: which spec a link direction gets next
//! and after how long.
//!
//! Specs are referred to by position (the step, Markov state or trace entry
//! that holds them); times are nanoseconds. Stepping a schedule is a state
//! machine: it either tells the caller which spec to apply after which delay,
//! that the schedule is finished, or that it needs outside input first
//! (a loaded replay trace, or a random Markov transition).

use std::sync::Arc;
use vstd::prelude::*;
use vstd::string::*;

use crate::netns_testbench::qdisc::{QdiscError, QdiscManager};
use crate::netns_testbench::veth::opt_view;
use crate::network_sim::qdisc::lit;
use crate::text::{char_is_ws, is_ws, push_str, str_chars, str_eq};

verus! {

/// Errors of the runtime scheduler.
#[derive(Debug)]
pub enum RuntimeError {
    Task(String),
    Qdisc(QdiscError),
    InvalidSchedule(String),
}

/// Impairment schedule of one link direction.
#[derive(Clone, Debug)]
pub enum Schedule {
    /// One spec, applied once at the start.
    Constant,
    /// Specs applied at the given offsets from the start, in list order.
    Steps(Vec<u128>),
    /// Markov chain over `num_states` specs, starting in `initial_state`,
    /// with a mean dwell time per state.
    Markov { num_states: usize, initial_state: usize, mean_dwell_ns: u128 },
    /// Specs replayed from a trace file.
    Replay { path: String },
}

/// The spec to apply.
#[derive(Clone, Copy, Debug, PartialEq, Eq, Structural)]
pub enum SpecChoice {
    /// The spec of a constant schedule.
    Constant,
    /// The spec of step `i`.
    Step(usize),
    /// The spec of Markov state `i`.
    State(usize),
    /// The typical default spec (a Markov state index with no spec).
    Typical,
    /// The spec of trace entry `i`.
    Trace(usize),
}

/// What the caller does next with a link's schedule.
#[derive(Clone, Copy, Debug, PartialEq, Eq, Structural)]
pub enum ScheduleAction {
    /// The schedule has nothing more to apply.
    Finished,
    /// Apply `choice` after `delay_ns`.
    Apply { choice: SpecChoice, delay_ns: u128 },
    /// Load the replay trace and hand it to `load_replay_trace`.
    LoadTrace,
    /// Draw the next Markov state from the transition row of `current_state`
    /// and a dwell time, and hand them to `complete_markov_transition`.
    DrawTransition { current_state: usize },
}

/// Markov chain position: the current state and when it is left.
#[derive(Clone, Copy, Debug, PartialEq, Eq, Structural)]
pub struct MarkovState {
    pub current_state: usize,
    pub next_transition_ns: u128,
}

/// Trace replay position: the entry times and the next entry.
#[derive(Clone, Debug)]
pub struct ReplayState {
    pub trace_times: Vec<u128>,
    pub current_index: usize,
}

/// Schedule state of one link direction.
#[derive(Debug)]
pub struct LinkRuntime {
    pub namespace: String,
    pub interface_index: u32,
    pub qdisc_manager: Arc<QdiscManager>,
    /// The schedule to follow for this link
    pub schedule: Schedule,
    /// Markov chain state (if using Markov scheduling)
    pub markov_state: Option<MarkovState>,
    /// Replay state (if using Replay scheduling)
    pub replay_state: Option<ReplayState>,
}

impl LinkRuntime {
    /// The replay position lies within its trace.
    pub open spec fn wf(&self) -> bool {
        self.replay_state matches Some(r) ==> r.current_index <= r.trace_times@.len()
    }

    /// A runtime that has not yet stepped its schedule.
    pub fn new(
        namespace: String,
        interface_index: u32,
        qdisc_manager: Arc<QdiscManager>,
        schedule: Schedule,
    ) -> (r: Self)
        ensures
            r.namespace == namespace,
            r.interface_index == interface_index,
            r.schedule == schedule,
            r.markov_state is None,
            r.replay_state is None,
            r.wf(),
    {
        LinkRuntime {
            namespace,
            interface_index,
            qdisc_manager,
            schedule,
            markov_state: None,
            replay_state: None,
        }
    }
}

/// The step that applies at `elapsed`: the first step from position `i`
/// whose offset is not in the past, after the time left until it; with
/// none left the schedule is finished.
pub open spec fn steps_action(times: Seq<u128>, i: int, elapsed: u128) -> ScheduleAction
    decreases times.len() - i,
{
    if i < 0 || i >= times.len() {
        ScheduleAction::Finished
    } else if times[i] >= elapsed {
        ScheduleAction::Apply {
            choice: SpecChoice::Step(i as usize),
            delay_ns: (times[i] - elapsed) as u128,
        }
    } else {
        steps_action(times, i + 1, elapsed)
    }
}

/// One replay step from position `i`: entries in the past are passed; the
/// first entry not in the past is applied after the time left until it and
/// stays the position, unless it is due now, in which case it is applied at
/// once and passed. Also gives the new position.
pub open spec fn replay_action(times: Seq<u128>, i: int, elapsed: u128) -> (ScheduleAction, int)
    decreases times.len() - i,
{
    if i < 0 || i >= times.len() {
        (ScheduleAction::Finished, times.len() as int)
    } else if times[i] > elapsed {
        (
            ScheduleAction::Apply {
                choice: SpecChoice::Trace(i as usize),
                delay_ns: (times[i] - elapsed) as u128,
            },
            i,
        )
    } else if times[i] == elapsed {
        (ScheduleAction::Apply { choice: SpecChoice::Trace(i as usize), delay_ns: 0 }, i + 1)
    } else {
        replay_action(times, i + 1, elapsed)
    }
}

/// The spec of Markov state `s`, or the typical spec for a state with no spec.
pub open spec fn state_choice(s: usize, num_states: usize) -> SpecChoice {
    if s < num_states {
        SpecChoice::State(s)
    } else {
        SpecChoice::Typical
    }
}

/// The initial Markov state, moved into range when out of it.
pub open spec fn clamped_initial(initial_state: usize, num_states: usize) -> usize {
    if initial_state > num_states - 1 {
        (num_states - 1) as usize
    } else {
        initial_state
    }
}

/// The Markov position a step works with: the current one, or the clamped
/// initial state left one mean dwell time from now.
pub open spec fn markov_position(
    m: Option<MarkovState>,
    num_states: usize,
    initial_state: usize,
    mean_dwell_ns: u128,
    now_ns: u128,
) -> MarkovState {
    match m {
        Some(m) => m,
        None => MarkovState {
            current_state: clamped_initial(initial_state, num_states),
            next_transition_ns: (now_ns + mean_dwell_ns) as u128,
        },
    }
}

/// The replay position as entry times and next entry.
pub open spec fn replay_view(r: Option<ReplayState>) -> Option<(Seq<u128>, int)> {
    match r {
        Some(r) => Some((r.trace_times@, r.current_index as int)),
        None => None,
    }
}

/// What stepping schedule `s` yields (`None`: the schedule is rejected).
pub open spec fn next_action(
    s: Schedule,
    m: Option<MarkovState>,
    rp: Option<(Seq<u128>, int)>,
    elapsed_ns: u128,
    now_ns: u128,
) -> Option<ScheduleAction> {
    match s {
        Schedule::Constant => Some(
            if elapsed_ns == 0 {
                ScheduleAction::Apply { choice: SpecChoice::Constant, delay_ns: 0 }
            } else {
                ScheduleAction::Finished
            },
        ),
        Schedule::Steps(times) => Some(steps_action(times@, 0, elapsed_ns)),
        Schedule::Markov { num_states, initial_state, mean_dwell_ns } => {
            if num_states == 0 {
                None
            } else {
                let p = markov_position(m, num_states, initial_state, mean_dwell_ns, now_ns);
                Some(
                    if now_ns >= p.next_transition_ns {
                        ScheduleAction::DrawTransition { current_state: p.current_state }
                    } else {
                        ScheduleAction::Apply {
                            choice: state_choice(p.current_state, num_states),
                            delay_ns: (p.next_transition_ns - now_ns) as u128,
                        }
                    },
                )
            }
        },
        Schedule::Replay { .. } => match rp {
            None => Some(ScheduleAction::LoadTrace),
            Some((times, i)) => Some(replay_action(times, i, elapsed_ns).0),
        },
    }
}

/// The Markov position after stepping schedule `s`.
pub open spec fn next_markov(
    s: Schedule,
    m: Option<MarkovState>,
    now_ns: u128,
) -> Option<MarkovState> {
    match s {
        Schedule::Markov { num_states, initial_state, mean_dwell_ns } => if num_states == 0 {
            m
        } else {
            Some(markov_position(m, num_states, initial_state, mean_dwell_ns, now_ns))
        },
        _ => m,
    }
}

/// The replay position after stepping schedule `s`.
pub open spec fn next_replay(
    s: Schedule,
    rp: Option<(Seq<u128>, int)>,
    elapsed_ns: u128,
) -> Option<(Seq<u128>, int)> {
    match s {
        Schedule::Replay { .. } => match rp {
            Some((times, i)) => Some((times, replay_action(times, i, elapsed_ns).1)),
            None => None,
        },
        _ => rp,
    }
}

fn first_step(times: &Vec<u128>, elapsed: u128) -> (a: ScheduleAction)
    ensures
        a == steps_action(times@, 0, elapsed),
{
    let mut i: usize = 0;
    while i < times.len()
        invariant
            i <= times.len(),
            steps_action(times@, 0, elapsed) == steps_action(times@, i as int, elapsed),
        decreases times.len() - i,
    {
        if times[i] >= elapsed {
            return ScheduleAction::Apply { choice: SpecChoice::Step(i), delay_ns: times[i] - elapsed };
        }
        i = i + 1;
    }
    ScheduleAction::Finished
}

fn replay_step(r: &mut ReplayState, elapsed: u128) -> (a: ScheduleAction)
    requires
        old(r).current_index <= old(r).trace_times@.len(),
    ensures
        final(r).trace_times == old(r).trace_times,
        final(r).current_index <= final(r).trace_times@.len(),
        (a, final(r).current_index as int) == replay_action(
            old(r).trace_times@,
            old(r).current_index as int,
            elapsed,
        ),
{
    let ghost from = r.current_index as int;
    while r.current_index < r.trace_times.len()
        invariant
            r.trace_times == old(r).trace_times,
            from == old(r).current_index as int,
            r.current_index <= r.trace_times@.len(),
            replay_action(r.trace_times@, from, elapsed) == replay_action(
                r.trace_times@,
                r.current_index as int,
                elapsed,
            ),
        decreases r.trace_times.len() - r.current_index,
    {
        let k = r.current_index;
        let t = r.trace_times[k];
        if t > elapsed {
            return ScheduleAction::Apply { choice: SpecChoice::Trace(k), delay_ns: t - elapsed };
        } else if t == elapsed {
            r.current_index = k + 1;
            return ScheduleAction::Apply { choice: SpecChoice::Trace(k), delay_ns: 0 };
        } else {
            r.current_index = k + 1;
        }
    }
    ScheduleAction::Finished
}

/// Steps the schedule of `runtime` at `elapsed_ns` since the schedule began,
/// `now_ns` being the current time on the clock that Markov transitions are
/// timed by: the result, the Markov position and the replay position are
/// those of `next_action`, `next_markov` and `next_replay`.
pub fn get_next_spec(runtime: &mut LinkRuntime, elapsed_ns: u128, now_ns: u128) -> (r: Result<
    ScheduleAction,
    RuntimeError,
>)
    requires
        old(runtime).wf(),
        (old(runtime).schedule matches Schedule::Markov { mean_dwell_ns, .. } ==> (old(
            runtime,
        ).markov_state is None ==> now_ns + mean_dwell_ns <= u128::MAX)),
    ensures
        final(runtime).wf(),
        final(runtime).schedule == old(runtime).schedule,
        final(runtime).namespace == old(runtime).namespace,
        final(runtime).interface_index == old(runtime).interface_index,
        (r is Ok) == (next_action(
            old(runtime).schedule,
            old(runtime).markov_state,
            replay_view(old(runtime).replay_state),
            elapsed_ns,
            now_ns,
        ) is Some),
        (r matches Ok(a) ==> Some(a) == next_action(
            old(runtime).schedule,
            old(runtime).markov_state,
            replay_view(old(runtime).replay_state),
            elapsed_ns,
            now_ns,
        )),
        final(runtime).markov_state == next_markov(
            old(runtime).schedule,
            old(runtime).markov_state,
            now_ns,
        ),
        replay_view(final(runtime).replay_state) == next_replay(
            old(runtime).schedule,
            replay_view(old(runtime).replay_state),
            elapsed_ns,
        ),
        (r matches Err(e) ==> (e matches RuntimeError::InvalidSchedule(m) && m@
            == "Markov schedule has no states"@)),
        // a Markov chain under way keeps to its current state until that
        // state's transition is due, then asks for a transition from it
        (old(runtime).schedule matches Schedule::Markov { num_states, .. } ==> (old(
            runtime,
        ).markov_state matches Some(m) ==> (num_states > 0 ==> {
            &&& now_ns < m.next_transition_ns ==> r == Ok::<ScheduleAction, RuntimeError>(
                ScheduleAction::Apply {
                    choice: if m.current_state < num_states {
                        SpecChoice::State(m.current_state)
                    } else {
                        SpecChoice::Typical
                    },
                    delay_ns: (m.next_transition_ns - now_ns) as u128,
                },
            )
            &&& now_ns >= m.next_transition_ns ==> r == Ok::<ScheduleAction, RuntimeError>(
                ScheduleAction::DrawTransition { current_state: m.current_state },
            )
            &&& final(runtime).markov_state == Some(m)
        }))),
        // a Markov chain not yet started starts in its initial state (the
        // last one when the initial state is out of range), left one mean
        // dwell time from now
        (old(runtime).schedule matches Schedule::Markov { num_states, initial_state, mean_dwell_ns }
            ==> (old(runtime).markov_state is None ==> (num_states > 0 ==> {
            let s0 = if initial_state < num_states {
                initial_state
            } else {
                (num_states - 1) as usize
            };
            &&& final(runtime).markov_state == Some(
                MarkovState { current_state: s0, next_transition_ns: (now_ns + mean_dwell_ns) as u128 },
            )
            &&& mean_dwell_ns > 0 ==> r == Ok::<ScheduleAction, RuntimeError>(
                ScheduleAction::Apply {
                    choice: SpecChoice::State(s0),
                    delay_ns: mean_dwell_ns,
                },
            )
        }))),
{
    match &runtime.schedule {
        Schedule::Constant => {
            if elapsed_ns == 0 {
                Ok(ScheduleAction::Apply { choice: SpecChoice::Constant, delay_ns: 0 })
            } else {
                Ok(ScheduleAction::Finished)
            }
        },
        Schedule::Steps(times) => Ok(first_step(times, elapsed_ns)),
        Schedule::Markov { num_states, initial_state, mean_dwell_ns } => {
            let num_states = *num_states;
            let initial_state = *initial_state;
            let mean_dwell_ns = *mean_dwell_ns;
            if num_states == 0 {
                return Err(
                    RuntimeError::InvalidSchedule(String::from_str("Markov schedule has no states")),
                );
            }
            let max_idx = num_states - 1;
            let init_state = if initial_state > max_idx {
                max_idx
            } else {
                initial_state
            };
            let m = match runtime.markov_state {
                Some(m) => m,
                None => MarkovState {
                    current_state: init_state,
                    next_transition_ns: now_ns + mean_dwell_ns,
                },
            };
            runtime.markov_state = Some(m);
            if now_ns >= m.next_transition_ns {
                Ok(ScheduleAction::DrawTransition { current_state: m.current_state })
            } else {
                let choice = if m.current_state < num_states {
                    SpecChoice::State(m.current_state)
                } else {
                    SpecChoice::Typical
                };
                Ok(ScheduleAction::Apply { choice, delay_ns: m.next_transition_ns - now_ns })
            }
        },
        Schedule::Replay { .. } => {
            match runtime.replay_state.take() {
                None => Ok(ScheduleAction::LoadTrace),
                Some(mut rs) => {
                    let a = replay_step(&mut rs, elapsed_ns);
                    runtime.replay_state = Some(rs);
                    Ok(a)
                },
            }
        },
    }
}

/// Completes a due Markov transition: `chosen` is the drawn next state and
/// `dwell_ns` the drawn time until the following transition. The chosen
/// state's spec is applied at once.
pub fn complete_markov_transition(
    runtime: &mut LinkRuntime,
    chosen: usize,
    now_ns: u128,
    dwell_ns: u128,
) -> (a: ScheduleAction)
    requires
        old(runtime).wf(),
        (old(runtime).schedule is Markov),
        now_ns + dwell_ns <= u128::MAX,
    ensures
        final(runtime).wf(),
        final(runtime).schedule == old(runtime).schedule,
        final(runtime).replay_state == old(runtime).replay_state,
        final(runtime).markov_state == Some(
            (MarkovState { current_state: chosen, next_transition_ns: (now_ns + dwell_ns) as u128 }),
        ),
        (old(runtime).schedule matches Schedule::Markov { num_states, .. } ==> a
            == (ScheduleAction::Apply { choice: state_choice(chosen, num_states), delay_ns: 0 })),
{
    runtime.markov_state = Some(
        MarkovState { current_state: chosen, next_transition_ns: now_ns + dwell_ns },
    );
    let num_states = match &runtime.schedule {
        Schedule::Markov { num_states, .. } => *num_states,
        _ => 0,
    };
    let choice = if chosen < num_states {
        SpecChoice::State(chosen)
    } else {
        SpecChoice::Typical
    };
    ScheduleAction::Apply { choice, delay_ns: 0 }
}

/// Takes the outcome of loading the replay trace (the entry times, or the
/// failure to read or decode the file): a failure is returned, a trace
/// starts replay at its first entry.
pub fn load_replay_trace(runtime: &mut LinkRuntime, loaded: Result<Vec<u128>, RuntimeError>) -> (r:
    Result<(), RuntimeError>)
    requires
        old(runtime).wf(),
    ensures
        final(runtime).wf(),
        final(runtime).schedule == old(runtime).schedule,
        final(runtime).markov_state == old(runtime).markov_state,
        (loaded is Err ==> r is Err && final(runtime).replay_state == old(runtime).replay_state),
        (loaded matches Ok(times) ==> (r is Ok && replay_view(final(runtime).replay_state)
            == Some((times@, 0int)))),
{
    match loaded {
        Ok(times) => {
            runtime.replay_state = Some(ReplayState { trace_times: times, current_index: 0 });
            Ok(())
        },
        Err(e) => Err(e),
    }
}

// ---------------------------------------------------------------------------
// Laws of schedule stepping
// ---------------------------------------------------------------------------

/// A constant schedule applies its spec once, at the start, without delay;
/// at every later time it is finished.
pub proof fn lemma_constant_applies_once(
    m: Option<MarkovState>,
    rp: Option<(Seq<u128>, int)>,
    elapsed_ns: u128,
    now_ns: u128,
)
    ensures
        next_action(Schedule::Constant, m, rp, 0, now_ns) == Some(
            ScheduleAction::Apply { choice: SpecChoice::Constant, delay_ns: 0 },
        ),
        elapsed_ns > 0 ==> next_action(Schedule::Constant, m, rp, elapsed_ns, now_ns) == Some(
            ScheduleAction::Finished,
        ),
{
}

proof fn lemma_steps_from(times: Seq<u128>, i: int, elapsed: u128)
    requires
        0 <= i <= times.len(),
        times.len() <= usize::MAX,
    ensures
        steps_action(times, i, elapsed) is Finished <==> (forall|j: int|
            i <= j < times.len() ==> #[trigger] times[j] < elapsed),
        steps_action(times, i, elapsed) matches ScheduleAction::Apply { choice, delay_ns } ==> (
        choice matches SpecChoice::Step(k) && i <= k < times.len() && times[k as int] >= elapsed
            && delay_ns == times[k as int] - elapsed && (forall|j: int|
            i <= j < k ==> #[trigger] times[j] < elapsed)),
        steps_action(times, i, elapsed) is Finished || steps_action(times, i, elapsed) is Apply,
    decreases times.len() - i,
{
    if i < times.len() {
        lemma_steps_from(times, i + 1, elapsed);
    }
}

/// Stepping a schedule of steps picks the first step in list order whose
/// offset is not yet past, to be applied after the time left until it, and
/// every step before it is past; it is finished exactly when every offset
/// is past.
pub proof fn lemma_steps_choice(times: Seq<u128>, elapsed: u128)
    requires
        times.len() <= usize::MAX,
    ensures
        steps_action(times, 0, elapsed) is Finished <==> (forall|j: int|
            0 <= j < times.len() ==> #[trigger] times[j] < elapsed),
        steps_action(times, 0, elapsed) matches ScheduleAction::Apply { choice, delay_ns } ==> (
        choice matches SpecChoice::Step(k) && k < times.len() && times[k as int] >= elapsed
            && delay_ns == times[k as int] - elapsed && (forall|j: int|
            0 <= j < k ==> #[trigger] times[j] < elapsed)),
{
    lemma_steps_from(times, 0, elapsed);
}

/// Replay never moves backwards and never passes the end of its trace: the
/// position after a step lies between the position before it and the
/// trace length, an applied entry is at or after the old position, and a
/// finished replay stands at the end.
pub proof fn lemma_replay_position_monotone(times: Seq<u128>, i: int, elapsed: u128)
    requires
        0 <= i <= times.len(),
        times.len() <= usize::MAX,
    ensures
        i <= replay_action(times, i, elapsed).1 <= times.len(),
        replay_action(times, i, elapsed).0 matches ScheduleAction::Apply { choice, .. } ==> (
        choice matches SpecChoice::Trace(k) && i <= k < times.len()),
        replay_action(times, i, elapsed).0 is Finished ==> replay_action(times, i, elapsed).1
            == times.len(),
    decreases times.len() - i,
{
    if i < times.len() && times[i] < elapsed {
        lemma_replay_position_monotone(times, i + 1, elapsed);
    }
}

/// A replay step applies the first entry from the current position that is
/// not in the past, after the time left until it, passing the entries in
/// the past; it moves past that entry only when it is due now; when every
/// remaining entry is in the past the replay is finished.
pub proof fn lemma_replay_applies_first_pending(times: Seq<u128>, i: int, elapsed: u128)
    requires
        0 <= i <= times.len(),
        times.len() <= usize::MAX,
    ensures
        ({
            let (a, next) = replay_action(times, i, elapsed);
            &&& a is Finished <==> (forall|j: int| i <= j < times.len() ==> #[trigger] times[j]
                < elapsed)
            &&& (a matches ScheduleAction::Apply { choice, delay_ns } ==> (choice matches SpecChoice::Trace(
                k,
            ) && i <= k < times.len() && times[k as int] >= elapsed && delay_ns == times[k as int]
                - elapsed && (forall|j: int| i <= j < k ==> #[trigger] times[j] < elapsed) && (
            times[k as int] == elapsed ==> next == k + 1) && (times[k as int] > elapsed ==> next
                == k)))
            &&& a is Apply || a is Finished
        }),
    decreases times.len() - i,
{
    if i < times.len() && times[i] < elapsed {
        lemma_replay_applies_first_pending(times, i + 1, elapsed);
    }
}

/// A Markov schedule starts in its initial state when that state exists,
/// and in its last state otherwise.
pub proof fn lemma_markov_initial_state(initial_state: usize, num_states: usize)
    requires
        num_states > 0,
    ensures
        clamped_initial(initial_state, num_states) < num_states,
        initial_state < num_states ==> clamped_initial(initial_state, num_states) == initial_state,
        initial_state >= num_states ==> clamped_initial(initial_state, num_states) == num_states - 1,
{
}

/// After a transition to state `chosen` at time `t` with dwell time `dwell`,
/// every step before `t + dwell` applies the chosen state's spec and waits
/// out the rest of the dwell time, whatever the initial state; the step at
/// `t + dwell` or later asks for the next transition from the chosen state.
pub proof fn lemma_markov_keeps_chosen_state(
    num_states: usize,
    initial_state: usize,
    mean_dwell_ns: u128,
    chosen: usize,
    t: u128,
    dwell: u128,
    now_ns: u128,
    rp: Option<(Seq<u128>, int)>,
    elapsed_ns: u128,
)
    requires
        chosen < num_states,
        t + dwell <= u128::MAX,
    ensures
        ({
            let s = Schedule::Markov { num_states, initial_state, mean_dwell_ns };
            let m = Some(MarkovState { current_state: chosen, next_transition_ns: (t + dwell) as u128 });
            &&& now_ns < t + dwell ==> next_action(s, m, rp, elapsed_ns, now_ns) == Some(
                ScheduleAction::Apply {
                    choice: SpecChoice::State(chosen),
                    delay_ns: (t + dwell - now_ns) as u128,
                },
            )
            &&& now_ns >= t + dwell ==> next_action(s, m, rp, elapsed_ns, now_ns) == Some(
                ScheduleAction::DrawTransition { current_state: chosen },
            )
            &&& next_markov(s, m, now_ns) == m
        }),
{
}

// ---------------------------------------------------------------------------
// Trace files
// ---------------------------------------------------------------------------

/// How a trace file is read.
#[derive(Clone, Copy, Debug, PartialEq, Eq, Structural)]
pub enum TraceFormat {
    Json,
    Csv,
}

/// What `std::path::Path::extension` gives for a path (a function of the
/// path's text alone).
pub uninterp spec fn path_extension(path: Seq<char>) -> Option<Seq<char>>;

/// `Path::extension` of `path`, as text; the path is valid UTF-8, so its
/// extension is too.
#[verifier::external_body]
fn path_extension_of(path: &str) -> (r: Option<String>)
    ensures
        opt_view(r) == path_extension(path@),
{
    std::path::Path::new(path).extension().and_then(|e| e.to_str()).map(|e| e.to_string())
}

/// The first character of `s` that is not white space, if any.
pub open spec fn first_non_ws(s: Seq<char>) -> Option<char>
    decreases s.len(),
{
    if s.len() == 0 {
        None
    } else if is_ws(s[0]) {
        first_non_ws(s.drop_first())
    } else {
        Some(s[0])
    }
}

/// A trace file whose extension is `ext` (`None` when it has none) and
/// whose text is `content` is JSON when the extension is `json` or the text,
/// after leading white space, starts with `{` or `[`; otherwise it is CSV.
pub open spec fn trace_format_of(ext: Option<Seq<char>>, content: Seq<char>) -> TraceFormat {
    if ext == Some("json"@) || first_non_ws(content) == Some('{') || first_non_ws(content) == Some(
        '[',
    ) {
        TraceFormat::Json
    } else {
        TraceFormat::Csv
    }
}

/// How the trace file at `path` with text `content` is read.
pub open spec fn trace_format_spec(path: Seq<char>, content: Seq<char>) -> TraceFormat {
    trace_format_of(path_extension(path), content)
}

fn first_non_ws_exec(s: &str) -> (r: Option<char>)
    ensures
        r == first_non_ws(s@),
{
    let cs = str_chars(s);
    let mut i: usize = 0;
    assert(cs@.skip(0) =~= cs@);
    while i < cs.len()
        invariant
            i <= cs.len(),
            cs@ == s@,
            first_non_ws(cs@.skip(i as int)) == first_non_ws(s@),
        decreases cs.len() - i,
    {
        if !char_is_ws(cs[i]) {
            return Some(cs[i]);
        }
        assert(cs@.skip(i as int).drop_first() =~= cs@.skip(i as int + 1));
        i = i + 1;
    }
    None
}

/// Decides how a trace file is read from its extension (`None` when the path
/// has none) and its text.
pub fn trace_format_for(extension: Option<&str>, content: &str) -> (f: TraceFormat)
    ensures
        f == trace_format_of(
            match extension {
                Some(e) => Some(e@),
                None => None,
            },
            content@,
        ),
{
    let json_ext = match extension {
        Some(e) => str_eq(e, "json"),
        None => false,
    };
    let first = first_non_ws_exec(content);
    if json_ext || first == Some('{') || first == Some('[') {
        TraceFormat::Json
    } else {
        TraceFormat::Csv
    }
}

/// Decides how the trace file at `path` with text `content` is read.
pub fn trace_format(path: &str, content: &str) -> (f: TraceFormat)
    ensures
        f == trace_format_spec(path@, content@),
{
    let ext = path_extension_of(path);
    match &ext {
        Some(e) => trace_format_for(Some(e.as_str()), content),
        None => trace_format_for(None, content),
    }
}

/// The error for a trace file that could not be read.
pub fn trace_read_error(reason: &str) -> (e: RuntimeError)
    ensures
        e matches RuntimeError::InvalidSchedule(m) && m@ == "Cannot read trace file: "@ + reason@,
{
    let mut m = lit("Cannot read trace file: ");
    push_str(&mut m, reason);
    RuntimeError::InvalidSchedule(m)
}

/// The error for a JSON trace file that did not decode.
pub fn trace_json_error(reason: &str) -> (e: RuntimeError)
    ensures
        e matches RuntimeError::InvalidSchedule(m) && m@ == "Invalid JSON trace file: "@ + reason@,
{
    let mut m = lit("Invalid JSON trace file: ");
    push_str(&mut m, reason);
    RuntimeError::InvalidSchedule(m)
}

/// The error for a CSV trace file, which is not supported.
pub fn trace_csv_error() -> (e: RuntimeError)
    ensures
        e matches RuntimeError::InvalidSchedule(m) && m@ == "CSV trace files not yet implemented"@,
{
    RuntimeError::InvalidSchedule(lit("CSV trace files not yet implemented"))
}

} // verus!
