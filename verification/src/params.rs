//! The parameters of the requests the server answers.
use vstd::prelude::*;

verus! {

/// How many log lines `read` returns when the request does not say.
pub fn default_read_lines() -> (n: usize)
    ensures
        n == 1000,
{
    1000
}

/// Parameters of `run`.
pub struct RunParams {
    /// The command to run in the background.
    pub command: String,
}

/// Parameters of `kill`.
pub struct KillParams {
    /// The process to kill.
    pub process_id: String,
}

/// Parameters of `stop`.
pub struct StopParams {
    /// The process to stop.
    pub process_id: String,
}

/// Parameters of `read`.
pub struct ReadParams {
    /// The process whose output to read.
    pub process_id: String,
    /// How many of the last log lines to return (1000 when not given).
    pub lines: usize,
}

/// Parameters of `restart`.
pub struct RestartParams {
    /// The process to restart.
    pub process_id: String,
}

/// Parameters of `kill_all` (none).
pub struct KillAllParams {}

/// Parameters of `list` (none).
pub struct ListParams {}

} // verus!
