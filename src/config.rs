use vstd::prelude::*;

verus! {

/// What one benchmarking session is asked to do.
pub struct Config {
    /// The program to run, followed by its arguments.
    pub cmd: Vec<String>,
    /// How many times the command runs.
    pub num_runs: u32,
    /// Upper bound, in seconds, of the random pause between two runs.
    pub sleep_dur: u32,
    /// Seconds to wait once before the first run.
    pub initial_delay: u32,
    /// Whether the command's standard output is withheld.
    pub quiet_stdout: bool,
}

} // verus!
