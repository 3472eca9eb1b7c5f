//! The failures the process manager reports, and the messages shown for them.
use vstd::prelude::*;
use crate::text::{contains_text, has_infix, law_infix};

verus! {

/// A failure of a process-manager operation.
pub enum ManagerError {
    /// The command line holds no word.
    EmptyCommand,
    /// The daemon's configuration builder refused the launch (its name or program is empty).
    InvalidConfig,
    /// A process of that name is already managed.
    AlreadyExists { process_id: String },
    /// The daemon refused to start the process, for `reason`.
    StartFailed { process_id: String, reason: String },
    /// The process failed while its start was watched; `logs` is its recent output.
    CrashedOnStart { process_id: String, logs: String },
    /// The process left the daemon's list while its start was watched.
    VanishedOnStart { process_id: String, logs: String },
    /// The process could not be deleted.
    KillFailed { process_id: String },
    /// The process could not be stopped.
    StopFailed { process_id: String },
    /// The process could not be restarted.
    RestartFailed { process_id: String },
    /// The logs of the process could not be read, for `reason`.
    ReadFailed { process_id: String, reason: String },
    /// Deleting every process failed.
    DeleteAllFailed,
    /// Listing the processes failed during shutdown clean-up.
    CleanupListFailed,
    /// Deleting every process failed during shutdown clean-up.
    CleanupDeleteFailed,
    /// Another daemon failure, with the daemon's own message.
    Daemon { reason: String },
}

/// The message shown for a failure.
pub open spec fn message_of(e: ManagerError) -> Seq<char> {
    match e {
        ManagerError::EmptyCommand => "Empty command"@,
        ManagerError::InvalidConfig => "Failed to build process config"@,
        ManagerError::AlreadyExists { process_id } => "Process '"@ + process_id@
            + "' already exists. Use the 'restart' tool to restart it, or 'kill' then 'run' to start fresh."@,
        ManagerError::StartFailed { process_id, reason } => "Failed to start process '"@
            + process_id@ + "': "@ + reason@,
        ManagerError::CrashedOnStart { process_id, logs } => "Process '"@ + process_id@
            + "' failed to start. Logs:\n"@ + logs@,
        ManagerError::VanishedOnStart { process_id, logs } => "Process '"@ + process_id@
            + "' failed to start (not found in process list). Logs:\n"@ + logs@,
        ManagerError::KillFailed { process_id } => "Failed to kill process '"@ + process_id@
            + "' - it may not exist or may have already stopped"@,
        ManagerError::StopFailed { process_id } => "Failed to stop process '"@ + process_id@
            + "'"@,
        ManagerError::RestartFailed { process_id } => "Failed to restart process '"@
            + process_id@ + "'"@,
        ManagerError::ReadFailed { process_id, reason } => "Failed to read logs for process '"@
            + process_id@ + "': "@ + reason@,
        ManagerError::DeleteAllFailed => "Failed to delete all processes"@,
        ManagerError::CleanupListFailed => "Failed to list processes during cleanup"@,
        ManagerError::CleanupDeleteFailed => "Failed to delete all processes during cleanup"@,
        ManagerError::Daemon { reason } => reason@,
    }
}

impl ManagerError {
    /// The message shown for this failure.
    pub fn message(&self) -> (m: String)
        ensures
            m@ == message_of(*self),
    {
        match self {
            ManagerError::EmptyCommand => String::from_str("Empty command"),
            ManagerError::InvalidConfig => String::from_str("Failed to build process config"),
            ManagerError::AlreadyExists { process_id } => String::from_str("Process '").concat(
                process_id.as_str(),
            ).concat(
                "' already exists. Use the 'restart' tool to restart it, or 'kill' then 'run' to start fresh.",
            ),
            ManagerError::StartFailed { process_id, reason } => String::from_str(
                "Failed to start process '",
            ).concat(process_id.as_str()).concat("': ").concat(reason.as_str()),
            ManagerError::CrashedOnStart { process_id, logs } => String::from_str(
                "Process '",
            ).concat(process_id.as_str()).concat("' failed to start. Logs:\n").concat(
                logs.as_str(),
            ),
            ManagerError::VanishedOnStart { process_id, logs } => String::from_str(
                "Process '",
            ).concat(process_id.as_str()).concat(
                "' failed to start (not found in process list). Logs:\n",
            ).concat(logs.as_str()),
            ManagerError::KillFailed { process_id } => String::from_str(
                "Failed to kill process '",
            ).concat(process_id.as_str()).concat(
                "' - it may not exist or may have already stopped",
            ),
            ManagerError::StopFailed { process_id } => String::from_str(
                "Failed to stop process '",
            ).concat(process_id.as_str()).concat("'"),
            ManagerError::RestartFailed { process_id } => String::from_str(
                "Failed to restart process '",
            ).concat(process_id.as_str()).concat("'"),
            ManagerError::ReadFailed { process_id, reason } => String::from_str(
                "Failed to read logs for process '",
            ).concat(process_id.as_str()).concat("': ").concat(reason.as_str()),
            ManagerError::DeleteAllFailed => String::from_str("Failed to delete all processes"),
            ManagerError::CleanupListFailed => String::from_str(
                "Failed to list processes during cleanup",
            ),
            ManagerError::CleanupDeleteFailed => String::from_str(
                "Failed to delete all processes during cleanup",
            ),
            ManagerError::Daemon { reason } => reason.clone(),
        }
    }
}

/// Whether a daemon message refusing a start says that the process already exists.
pub open spec fn reports_duplicate(reason: Seq<char>) -> bool {
    has_infix(reason, "already exists"@) || has_infix(reason, "duplicate"@)
}

/// Law: a refusal whose message mentions `already exists` or `duplicate`,
/// wherever the words stand in it, is reported as a duplicate; one whose message
/// is shorter than both words is not.
pub proof fn law_duplicate_refusals(before: Seq<char>, after: Seq<char>, short: Seq<char>)
    requires
        short.len() < 9,
    ensures
        reports_duplicate(before + "already exists"@ + after),
        reports_duplicate(before + "duplicate"@ + after),
        !reports_duplicate(short),
{
    reveal_strlit("already exists");
    reveal_strlit("duplicate");
    law_infix(before, "already exists"@, after);
    law_infix(before, "duplicate"@, after);
    law_infix(short, "already exists"@, Seq::<char>::empty());
    law_infix(short, "duplicate"@, Seq::<char>::empty());
}

/// Classifies the daemon's refusal to start `process_id`: a message that mentions
/// `already exists` or `duplicate` is reported as `AlreadyExists`, any other as
/// `StartFailed` with the daemon's message.
pub fn start_refusal(process_id: &str, reason: &str) -> (e: ManagerError)
    ensures
        reports_duplicate(reason@) ==> (e matches ManagerError::AlreadyExists { process_id: id }
            && id@ == process_id@),
        !reports_duplicate(reason@) ==> (e matches ManagerError::StartFailed {
            process_id: id,
            reason: r,
        } && id@ == process_id@ && r@ == reason@),
{
    if contains_text(reason, "already exists") || contains_text(reason, "duplicate") {
        ManagerError::AlreadyExists { process_id: String::from_str(process_id) }
    } else {
        ManagerError::StartFailed {
            process_id: String::from_str(process_id),
            reason: String::from_str(reason),
        }
    }
}

} // verus!
