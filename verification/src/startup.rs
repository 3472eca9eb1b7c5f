//! Watching a freshly launched process until it has proved itself or failed.
//!
//! After a launch the process is looked up once a second; the first sighting of a
//! failure, or of its disappearance from the list, ends the watch with an error,
//! and after `MAX_STARTUP_CHECKS` healthy sightings it counts as started.
use vstd::prelude::*;
use crate::errors::ManagerError;
use crate::status::{ProcessSnapshot, ProcessState};

verus! {

/// How many one-second checks a launch is watched for.
pub const MAX_STARTUP_CHECKS: u32 = 5;

/// Whether a sighting of a launched process shows a failed start: the daemon marks
/// it failed, or it exited with a non-zero code, or, before any exit code is known,
/// it has no PID or its PID is not alive. An exit code of 0 is a finished run, not
/// a failure.
pub open spec fn start_failed(snapshot: ProcessSnapshot, pid_alive: bool) -> bool {
    ||| snapshot.state == ProcessState::Errored
    ||| (snapshot.exit_code matches Some(code) && code != 0)
    ||| (snapshot.exit_code is None && (snapshot.pid is None || !pid_alive))
}

/// The PID whose liveness a sighting needs: its PID while no exit code is known.
pub open spec fn probe_target(snapshot: ProcessSnapshot) -> Option<u32> {
    if snapshot.exit_code is None {
        snapshot.pid
    } else {
        None
    }
}

/// Which PID, if any, must be checked for liveness to judge this sighting.
pub fn liveness_probe(snapshot: &ProcessSnapshot) -> (r: Option<u32>)
    ensures
        r == probe_target(*snapshot),
{
    if snapshot.exit_code.is_none() {
        snapshot.pid
    } else {
        None
    }
}

/// Law: the liveness of a PID is asked for exactly while no exit code is known and
/// the process has a PID, and then for that PID.
pub proof fn law_probe_only_without_exit_code(s: ProcessSnapshot)
    ensures
        s.exit_code is None && s.pid is Some ==> probe_target(s) == s.pid,
        s.exit_code is Some ==> probe_target(s) is None,
        s.pid is None ==> probe_target(s) is None,
{
}

/// Judges one sighting of a launched process.
pub fn has_start_failed(snapshot: &ProcessSnapshot, pid_alive: bool) -> (r: bool)
    ensures
        r == start_failed(*snapshot, pid_alive),
{
    let errored = snapshot.state == ProcessState::Errored;
    let bad_exit = match snapshot.exit_code {
        Some(code) => code != 0,
        None => false,
    };
    let gone_without_code = match snapshot.exit_code {
        Some(_) => false,
        None => match snapshot.pid {
            Some(_) => !pid_alive,
            None => true,
        },
    };
    errored || bad_exit || gone_without_code
}

/// What the watch of a launch concludes after a check.
#[derive(Clone, Copy, Debug, PartialEq, Eq, Structural)]
pub enum StartupVerdict {
    /// Healthy so far: wait a second and check again.
    Waiting,
    /// Healthy for all the checks: the launch succeeded.
    Started,
    /// The process failed: fetch its logs, delete it, report the failure.
    Crashed,
    /// The process is no longer listed: fetch its logs, delete it, report it.
    Vanished,
}

/// The verdict of the check numbered `check` (counting from 1), given the sighting
/// of the process (`None` when it is not listed) and the liveness of its PID.
pub open spec fn verdict_of(check: int, sighting: Option<ProcessSnapshot>, pid_alive: bool) -> StartupVerdict {
    match sighting {
        None => StartupVerdict::Vanished,
        Some(s) => if start_failed(s, pid_alive) {
            StartupVerdict::Crashed
        } else if check >= MAX_STARTUP_CHECKS {
            StartupVerdict::Started
        } else {
            StartupVerdict::Waiting
        },
    }
}

/// The watch over one launch: how many checks it has made.
pub struct StartupMonitor {
    checks: u32,
}

impl StartupMonitor {
    /// How many checks were made.
    pub closed spec fn checks_made(&self) -> nat {
        self.checks as nat
    }

    /// A watch that has made no check yet.
    pub fn new() -> (m: StartupMonitor)
        ensures
            m.checks_made() == 0,
    {
        StartupMonitor { checks: 0 }
    }

    /// How many checks were made.
    pub fn checks(&self) -> (n: u32)
        ensures
            n == self.checks_made(),
    {
        self.checks
    }

    /// Records one check, with the sighting of the process (`None` when it is not
    /// listed) and whether its PID is alive (see `liveness_probe`), and says what
    /// follows. A watch never asks for a check beyond `MAX_STARTUP_CHECKS`.
    pub fn observe(&mut self, sighting: Option<&ProcessSnapshot>, pid_alive: bool) -> (v: StartupVerdict)
        requires
            old(self).checks_made() < MAX_STARTUP_CHECKS,
        ensures
            final(self).checks_made() == old(self).checks_made() + 1,
            v == verdict_of(
                final(self).checks_made() as int,
                match sighting {
                    Some(s) => Some(*s),
                    None => None,
                },
                pid_alive,
            ),
            v == StartupVerdict::Waiting ==> final(self).checks_made() < MAX_STARTUP_CHECKS,
    {
        self.checks = self.checks + 1;
        match sighting {
            None => StartupVerdict::Vanished,
            Some(s) => {
                if has_start_failed(s, pid_alive) {
                    StartupVerdict::Crashed
                } else if self.checks >= MAX_STARTUP_CHECKS {
                    StartupVerdict::Started
                } else {
                    StartupVerdict::Waiting
                }
            },
        }
    }
}

/// The failure reported for a watch that ended with `verdict` (a crash or a
/// disappearance), once the process's recent output `logs` has been fetched; the
/// caller has then deleted the process and forgotten its command.
pub fn start_failure(verdict: StartupVerdict, process_id: String, logs: String) -> (e: ManagerError)
    requires
        verdict == StartupVerdict::Crashed || verdict == StartupVerdict::Vanished,
    ensures
        verdict == StartupVerdict::Crashed ==> e == (ManagerError::CrashedOnStart { process_id, logs }),
        verdict == StartupVerdict::Vanished ==> e == (ManagerError::VanishedOnStart { process_id, logs }),
{
    match verdict {
        StartupVerdict::Crashed => ManagerError::CrashedOnStart { process_id, logs },
        _ => ManagerError::VanishedOnStart { process_id, logs },
    }
}

/// Law: a launch that keeps looking healthy is declared started at the last check,
/// and a failure seen at any check ends the watch, whatever came before.
pub proof fn law_startup_outcomes(check: int, s: ProcessSnapshot, pid_alive: bool)
    requires
        1 <= check <= MAX_STARTUP_CHECKS,
    ensures
        start_failed(s, pid_alive) ==> verdict_of(check, Some(s), pid_alive) == StartupVerdict::Crashed,
        !start_failed(s, pid_alive) && check == MAX_STARTUP_CHECKS ==> verdict_of(check, Some(s), pid_alive) == StartupVerdict::Started,
        !start_failed(s, pid_alive) && check < MAX_STARTUP_CHECKS ==> verdict_of(check, Some(s), pid_alive) == StartupVerdict::Waiting,
        verdict_of(check, None, pid_alive) == StartupVerdict::Vanished,
{
}

/// Law: what counts as a failed start. A sighting is a failure when the daemon
/// marks it failed, when it exited with any non-zero code, or, while no exit code
/// is known, when it has no PID or its PID is dead; at every check such a
/// sighting ends the watch as crashed. A listed process that is running with a
/// live PID, or that exited with code 0, is not a failure unless marked failed.
pub proof fn law_start_failure_cases(s: ProcessSnapshot, pid_alive: bool, check: int)
    requires
        1 <= check <= MAX_STARTUP_CHECKS,
    ensures
        s.state == ProcessState::Errored ==> start_failed(s, pid_alive),
        (s.exit_code matches Some(c) && c != 0) ==> start_failed(s, pid_alive),
        (s.exit_code matches Some(c) && c != 0) ==> verdict_of(check, Some(s), pid_alive)
            == StartupVerdict::Crashed,
        s.exit_code is None && s.pid is None ==> start_failed(s, pid_alive),
        s.exit_code is None && s.pid is Some && !pid_alive ==> start_failed(s, pid_alive),
        s.state != ProcessState::Errored && s.exit_code is None && s.pid is Some && pid_alive
            ==> !start_failed(s, pid_alive),
        s.state != ProcessState::Errored && s.exit_code == Some(0i32) ==> !start_failed(
            s,
            pid_alive,
        ),
        start_failed(s, pid_alive) ==> verdict_of(check, Some(s), pid_alive)
            == StartupVerdict::Crashed,
{
}

/// Law: a process that exited with code 0 before any check is not a failed start,
/// unless the daemon marked it failed.
pub proof fn law_clean_exit_is_not_failure(s: ProcessSnapshot, pid_alive: bool)
    requires
        s.exit_code == Some(0i32),
        s.state != ProcessState::Errored,
    ensures
        !start_failed(s, pid_alive),
{
}

} // verus!
