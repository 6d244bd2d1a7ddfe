use crate::stats::{context_of, ContextStat, StatsError};
use crate::usage::{delta_of, usage_delta, RUsage, RunMetrics};
use vstd::prelude::*;

verus! {

/// Where a session stands.
#[derive(Clone, Copy, Debug, PartialEq, Eq, Structural)]
pub enum Phase {
    /// Nothing has happened yet.
    Ready,
    /// Waiting once before the first run.
    InitialWait,
    /// Waiting for the snapshot taken before the first run.
    FirstSnapshot,
    /// Waiting for a run of the command to complete.
    Running,
    /// Waiting for a random pause between two runs to end.
    Pausing,
    /// All runs are done.
    Done,
}

/// What the driver of a session is to do next.
#[derive(Clone, Copy, Debug, PartialEq, Eq, Structural)]
pub enum Action {
    /// Sleep this many seconds, then report `Event::Waited`.
    Wait { secs: u32 },
    /// Read the cumulative usage of terminated children, then report
    /// `Event::Snapshot`.
    TakeSnapshot,
    /// Run the command once, then report `Event::Completed` with the elapsed
    /// time and a fresh cumulative snapshot.
    RunCommand,
    /// Sleep a number of seconds drawn uniformly from `0..=max_secs`, then
    /// report `Event::Waited`.
    Pause { max_secs: u32 },
    /// Stop: the runs are complete.
    Finish,
}

/// What the driver reports back.
#[derive(Clone, Copy, Debug, PartialEq, Eq, Structural)]
pub enum Event {
    /// The session starts.
    Begin,
    /// A wait or a pause has ended.
    Waited,
    /// The cumulative usage of terminated children.
    Snapshot { usage: RUsage },
    /// A run has completed, after `wall_clock_usec` microseconds; `usage` is
    /// the cumulative snapshot taken right after it.
    Completed { wall_clock_usec: i64, usage: RUsage },
}

/// Why an event was refused.
#[derive(Clone, Copy, Debug, PartialEq, Eq, Structural)]
pub enum LoopError {
    /// The event does not answer the action last asked for.
    OutOfOrder,
    /// A cumulative counter is lower than in the previous snapshot.
    CounterWentBack,
}

/// The state of a session.
pub struct LoopView {
    pub num_runs: u32,
    pub sleep_dur: u32,
    pub initial_delay: u32,
    pub phase: Phase,
    pub last: RUsage,
    pub runs: Seq<RunMetrics>,
}

impl LoopView {
    /// The states that a session can reach.
    pub open spec fn wf(&self) -> bool {
        &&& self.runs.len() <= self.num_runs
        &&& (self.phase is Ready || self.phase is InitialWait || self.phase is FirstSnapshot)
            ==> self.runs.len() == 0
        &&& self.phase is InitialWait ==> self.initial_delay > 0
        &&& (self.phase is Running || self.phase is Pausing) ==> self.runs.len() < self.num_runs
        &&& self.phase is Pausing ==> self.sleep_dur > 0 && self.runs.len() > 0
        &&& self.phase is Done ==> self.runs.len() == self.num_runs
    }
}

/// The phase that follows a completed run, with `done` runs behind.
pub open spec fn phase_after_run(v: LoopView, done: nat) -> Phase {
    if done == v.num_runs {
        Phase::Done
    } else if v.sleep_dur > 0 {
        Phase::Pausing
    } else {
        Phase::Running
    }
}

/// How a session moves on an event.
pub open spec fn transition(v: LoopView, e: Event) -> Result<LoopView, LoopError> {
    match (v.phase, e) {
        (Phase::Ready, Event::Begin) => Ok(
            LoopView {
                phase: if v.initial_delay > 0 {
                    Phase::InitialWait
                } else {
                    Phase::FirstSnapshot
                },
                ..v
            },
        ),
        (Phase::InitialWait, Event::Waited) => Ok(LoopView { phase: Phase::FirstSnapshot, ..v }),
        (Phase::FirstSnapshot, Event::Snapshot { usage }) => Ok(
            LoopView {
                phase: if v.num_runs == 0 {
                    Phase::Done
                } else {
                    Phase::Running
                },
                last: usage,
                ..v
            },
        ),
        (Phase::Running, Event::Completed { wall_clock_usec, usage }) => match delta_of(
            v.last,
            usage,
        ) {
            Some(d) => Ok(
                LoopView {
                    phase: phase_after_run(v, v.runs.len() + 1),
                    last: usage,
                    runs: v.runs.push(RunMetrics { wall_clock_usec, rusage: d }),
                    ..v
                },
            ),
            None => Err(LoopError::CounterWentBack),
        },
        (Phase::Pausing, Event::Waited) => Ok(LoopView { phase: Phase::Running, ..v }),
        _ => Err(LoopError::OutOfOrder),
    }
}

/// The action that a state asks of the driver. A session in `Ready` has
/// been asked nothing yet; the driver opens it with `Event::Begin`.
pub open spec fn action_for(v: LoopView) -> Action {
    match v.phase {
        Phase::Ready => Action::TakeSnapshot,
        Phase::InitialWait => Action::Wait { secs: v.initial_delay },
        Phase::FirstSnapshot => Action::TakeSnapshot,
        Phase::Running => Action::RunCommand,
        Phase::Pausing => Action::Pause { max_secs: v.sleep_dur },
        Phase::Done => Action::Finish,
    }
}

/// The decisions of a benchmarking session: when to wait, sample, run and
/// pause, and what each run cost.
pub struct RunLoop {
    num_runs: u32,
    sleep_dur: u32,
    initial_delay: u32,
    phase: Phase,
    last: RUsage,
    runs: Vec<RunMetrics>,
}

impl View for RunLoop {
    type V = LoopView;

    closed spec fn view(&self) -> LoopView {
        LoopView {
            num_runs: self.num_runs,
            sleep_dur: self.sleep_dur,
            initial_delay: self.initial_delay,
            phase: self.phase,
            last: self.last,
            runs: self.runs@,
        }
    }
}

proof fn lemma_transition_wf(v: LoopView, e: Event)
    requires
        v.wf(),
    ensures
        transition(v, e) matches Ok(w) ==> w.wf() && w.num_runs == v.num_runs && w.sleep_dur
            == v.sleep_dur && w.initial_delay == v.initial_delay,
{
}

/// With no pause configured, no event ever leads to a pause, and only the
/// one wait before the first run is asked for.
pub proof fn lemma_no_pause_without_sleep(v: LoopView, e: Event)
    requires
        v.wf(),
        v.sleep_dur == 0,
    ensures
        transition(v, e) matches Ok(w) ==> !(action_for(w) is Pause) && (action_for(w) is Wait
            ==> v.phase is Ready),
{
}

/// A session of zero runs never asks for the command to run and records no
/// run: it finishes on its first snapshot, and its statistics are refused.
pub proof fn lemma_zero_runs(v: LoopView, usage: RUsage)
    requires
        v.wf(),
        v.num_runs == 0,
    ensures
        !(action_for(v) is RunCommand),
        v.runs.len() == 0,
        v.phase is FirstSnapshot ==> (transition(v, Event::Snapshot { usage }) matches Ok(w)
            && action_for(w) is Finish && w.runs.len() == 0),
        context_of(v.runs) == Err::<ContextStat, StatsError>(StatsError::NoSamples),
{
    crate::stats::lemma_no_runs_no_summary(v.runs);
}

impl RunLoop {
    /// A session that has not begun.
    pub fn new(num_runs: u32, sleep_dur: u32, initial_delay: u32) -> (r: RunLoop)
        ensures
            r@ == (LoopView {
                num_runs,
                sleep_dur,
                initial_delay,
                phase: Phase::Ready,
                last: RUsage { user_tv_usec: 0, system_tv_usec: 0 },
                runs: Seq::empty(),
            }),
            r@.wf(),
    {
        RunLoop {
            num_runs,
            sleep_dur,
            initial_delay,
            phase: Phase::Ready,
            last: RUsage { user_tv_usec: 0, system_tv_usec: 0 },
            runs: Vec::new(),
        }
    }

    /// Takes the next event and says what to do; a refused event leaves the
    /// session as it was.
    pub fn next(&mut self, event: Event) -> (r: Result<Action, LoopError>)
        requires
            old(self)@.wf(),
        ensures
            final(self)@.wf(),
            match transition(old(self)@, event) {
                Ok(w) => final(self)@ == w && r == Ok::<Action, LoopError>(action_for(w)),
                Err(e) => final(self)@ == old(self)@ && r == Err::<Action, LoopError>(e),
            },
    {
        proof {
            lemma_transition_wf(self@, event);
        }
        match (self.phase, event) {
            (Phase::Ready, Event::Begin) => {
                if self.initial_delay > 0 {
                    self.phase = Phase::InitialWait;
                    Ok(Action::Wait { secs: self.initial_delay })
                } else {
                    self.phase = Phase::FirstSnapshot;
                    Ok(Action::TakeSnapshot)
                }
            },
            (Phase::InitialWait, Event::Waited) => {
                self.phase = Phase::FirstSnapshot;
                Ok(Action::TakeSnapshot)
            },
            (Phase::FirstSnapshot, Event::Snapshot { usage }) => {
                self.last = usage;
                if self.num_runs == 0 {
                    self.phase = Phase::Done;
                    Ok(Action::Finish)
                } else {
                    self.phase = Phase::Running;
                    Ok(Action::RunCommand)
                }
            },
            (Phase::Running, Event::Completed { wall_clock_usec, usage }) => {
                match usage_delta(&self.last, &usage) {
                    Some(d) => {
                        self.runs.push(RunMetrics { wall_clock_usec, rusage: d });
                        self.last = usage;
                        if self.runs.len() == self.num_runs as usize {
                            self.phase = Phase::Done;
                            Ok(Action::Finish)
                        } else if self.sleep_dur > 0 {
                            self.phase = Phase::Pausing;
                            Ok(Action::Pause { max_secs: self.sleep_dur })
                        } else {
                            self.phase = Phase::Running;
                            Ok(Action::RunCommand)
                        }
                    },
                    None => Err(LoopError::CounterWentBack),
                }
            },
            (Phase::Pausing, Event::Waited) => {
                self.phase = Phase::Running;
                Ok(Action::RunCommand)
            },
            _ => Err(LoopError::OutOfOrder),
        }
    }

    /// The runs recorded so far, in the order they ran.
    pub fn runs(&self) -> (r: &Vec<RunMetrics>)
        ensures
            r@ == self@.runs,
    {
        &self.runs
    }

    /// Ends the session and hands over its runs.
    pub fn into_runs(self) -> (r: Vec<RunMetrics>)
        ensures
            r@ == self@.runs,
    {
        self.runs
    }
}

/// Relies on `rand::Rng::gen_range` over `rand::thread_rng()`: the value
/// lies in the inclusive range asked for.
#[verifier::external_body]
fn uniform_upto(max: u32) -> (r: u32)
    ensures
        r <= max,
{
    rand::Rng::gen_range(&mut rand::thread_rng(), 0..=max)
}

/// The length, in seconds, of a random pause of at most `max_secs` seconds.
pub fn random_pause(max_secs: u32) -> (r: u32)
    ensures
        r <= max_secs,
{
    uniform_upto(max_secs)
}

} // verus!
