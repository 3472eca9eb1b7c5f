//! The answers the manager gives to each request, and how a listing describes a
//! process.
use vstd::prelude::*;
use crate::procfs::{all_decimal_digits, decimal_value, is_decimal_digit};
use crate::registry::{shown_command, CommandRegistry};
use crate::status::{ProcessSnapshot, ProcessState};
use crate::times::{
    is_ordinary, start_time_text, uptime_seconds, utc_time_text, whole_seconds_between, UtcInstant,
};

verus! {

/// The decimal digit character for `d` (0 to 9).
pub open spec fn digit_char(d: int) -> char {
    ('0' as int + d) as char
}

/// The decimal writing of `n`, without sign or leading zeros.
pub open spec fn decimal_text(n: nat) -> Seq<char>
    decreases n,
{
    if n < 10 {
        seq![digit_char(n as int)]
    } else {
        decimal_text(n / 10).push(digit_char((n % 10) as int))
    }
}

/// Writes `n` in decimal.
pub fn decimal_string(n: usize) -> (s: String)
    ensures
        s@ == decimal_text(n as nat),
    decreases n,
{
    let d = n % 10;
    let c: char = if d == 0 {
        '0'
    } else if d == 1 {
        '1'
    } else if d == 2 {
        '2'
    } else if d == 3 {
        '3'
    } else if d == 4 {
        '4'
    } else if d == 5 {
        '5'
    } else if d == 6 {
        '6'
    } else if d == 7 {
        '7'
    } else if d == 8 {
        '8'
    } else {
        '9'
    };
    assert(c == digit_char(d as int));
    let mut s = if n < 10 {
        String::new()
    } else {
        decimal_string(n / 10)
    };
    crate::text::push_char(&mut s, c);
    s
}

/// The character of each decimal digit stands `d` places after `0`.
proof fn lemma_digit_char(d: int)
    requires
        0 <= d < 10,
    ensures
        digit_char(d) as int == '0' as int + d,
        is_decimal_digit(digit_char(d)),
{
    if d == 0 {
        assert(digit_char(0) == '0');
    } else if d == 1 {
        assert(digit_char(1) == '1');
    } else if d == 2 {
        assert(digit_char(2) == '2');
    } else if d == 3 {
        assert(digit_char(3) == '3');
    } else if d == 4 {
        assert(digit_char(4) == '4');
    } else if d == 5 {
        assert(digit_char(5) == '5');
    } else if d == 6 {
        assert(digit_char(6) == '6');
    } else if d == 7 {
        assert(digit_char(7) == '7');
    } else if d == 8 {
        assert(digit_char(8) == '8');
    } else {
        assert(digit_char(9) == '9');
    }
}

/// Law: the decimal writing of a number reads back as that number: it is made of
/// decimal digits, its value is the number, and it starts with `0` only for 0.
pub proof fn law_decimal_text_reads_back(n: nat)
    ensures
        all_decimal_digits(decimal_text(n)),
        decimal_value(decimal_text(n)) == n,
        decimal_text(n).len() > 0,
        decimal_text(n)[0] == '0' ==> n == 0,
    decreases n,
{
    if n < 10 {
        let t = decimal_text(n);
        lemma_digit_char(n as int);
        assert(t.drop_last() =~= Seq::<char>::empty());
        assert(t[0] == digit_char(n as int));
        assert(t.last() == digit_char(n as int));
        assert(decimal_value(Seq::<char>::empty()) == 0);
        assert(n as int == 0 ==> digit_char(n as int) == '0');
    } else {
        law_decimal_text_reads_back(n / 10);
        lemma_digit_char((n % 10) as int);
        let p = decimal_text(n / 10);
        let t = decimal_text(n);
        assert(t.drop_last() =~= p);
        assert(t.last() == digit_char((n % 10) as int));
        assert(decimal_value(t) == decimal_value(p) * 10 + (n % 10));
        assert(n == (n / 10) * 10 + n % 10);
        assert(t[0] == p[0]);
        assert forall|i: int| 0 <= i < t.len() implies is_decimal_digit(#[trigger] t[i]) by {
            if i < p.len() {
                assert(t[i] == p[i]);
            }
        }
    }
}

/// Answer to `run`.
pub struct RunResponse {
    /// The name the process was started under.
    pub process_id: String,
    /// The command line it runs.
    pub command: String,
    /// A human-readable confirmation.
    pub message: String,
    /// Its first output, when the logs could be read.
    pub logs: Option<String>,
}

/// Answer to `kill` and `stop`.
pub struct KillResponse {
    /// The process acted on.
    pub process_id: String,
    /// A human-readable confirmation.
    pub message: String,
}

/// Answer to `kill_all`.
pub struct KillAllResponse {
    /// How many processes were deleted.
    pub stopped_count: usize,
    /// A human-readable confirmation.
    pub message: String,
}

/// Answer to `read`.
pub struct ReadResponse {
    /// The process whose output this is.
    pub process_id: String,
    /// Its recent output.
    pub logs: String,
}

/// Answer to `restart`.
pub struct RestartResponse {
    /// The process restarted.
    pub process_id: String,
    /// A human-readable confirmation.
    pub message: String,
}

/// How a listing describes one process (its CPU share, a floating-point reading,
/// is added by the caller).
pub struct ProcessInfo {
    /// The process name.
    pub name: String,
    /// The command line that started it, or `<unknown>`.
    pub command: String,
    /// Its state, in words.
    pub status: String,
    /// Its PID, or 0 when it has none.
    pub pid: u32,
    /// When it started, or `N/A`.
    pub started_at: String,
    /// Seconds since it started, or 0.
    pub uptime_seconds: i64,
    /// How many times it was restarted.
    pub restarts: u32,
    /// Its memory use in whole mebibytes.
    pub memory_mb: u64,
}

/// Answer to `list`.
pub struct ListResponse {
    /// One description per listed process, in the daemon's order.
    pub processes: Vec<ProcessInfo>,
}

/// `'` + `id` + `'`, the way messages quote a process name.
pub open spec fn quoted(id: Seq<char>) -> Seq<char> {
    "'"@ + id + "'"@
}

impl RunResponse {
    /// The answer to a launch of `command` under `process_id` that succeeded, with
    /// the first output of the process when it could be read.
    pub fn started(process_id: String, command: String, logs: Option<String>) -> (r: RunResponse)
        ensures
            r.process_id@ == process_id@,
            r.command@ == command@,
            r.message@ == "Started process "@ + quoted(process_id@),
            r.logs == logs,
    {
        let message = String::from_str("Started process '").concat(process_id.as_str()).concat(
            "'",
        );
        proof {
            assert(message@ =~= "Started process "@ + quoted(process_id@)) by {
                reveal_strlit("Started process '");
                reveal_strlit("Started process ");
                reveal_strlit("'");
            }
        }
        RunResponse { process_id, command, message, logs }
    }
}

impl KillResponse {
    /// The answer to a `kill` of `process_id`: stopped and removed.
    pub fn killed(process_id: &str) -> (r: KillResponse)
        ensures
            r.process_id@ == process_id@,
            r.message@ == "Killed and removed process "@ + quoted(process_id@),
    {
        let message = String::from_str("Killed and removed process '").concat(process_id).concat(
            "'",
        );
        proof {
            assert(message@ =~= "Killed and removed process "@ + quoted(process_id@)) by {
                reveal_strlit("Killed and removed process '");
                reveal_strlit("Killed and removed process ");
                reveal_strlit("'");
            }
        }
        KillResponse { process_id: String::from_str(process_id), message }
    }

    /// The answer to a `stop` of `process_id`: stopped, still listed.
    pub fn stopped(process_id: &str) -> (r: KillResponse)
        ensures
            r.process_id@ == process_id@,
            r.message@ == "Stopped process "@ + quoted(process_id@),
    {
        let message = String::from_str("Stopped process '").concat(process_id).concat("'");
        proof {
            assert(message@ =~= "Stopped process "@ + quoted(process_id@)) by {
                reveal_strlit("Stopped process '");
                reveal_strlit("Stopped process ");
                reveal_strlit("'");
            }
        }
        KillResponse { process_id: String::from_str(process_id), message }
    }
}

impl KillAllResponse {
    /// The answer to `kill_all` after `count` processes were deleted.
    pub fn deleted(count: usize) -> (r: KillAllResponse)
        ensures
            r.stopped_count == count,
            r.message@ == "Killed and removed "@ + decimal_text(count as nat) + " process(es)"@,
    {
        let n = decimal_string(count);
        let message = String::from_str("Killed and removed ").concat(n.as_str()).concat(
            " process(es)",
        );
        KillAllResponse { stopped_count: count, message }
    }
}

impl ReadResponse {
    /// The answer to a `read` of `process_id` whose recent output is `logs`.
    pub fn new(process_id: &str, logs: String) -> (r: ReadResponse)
        ensures
            r.process_id@ == process_id@,
            r.logs@ == logs@,
    {
        ReadResponse { process_id: String::from_str(process_id), logs }
    }
}

impl RestartResponse {
    /// The answer to a `restart` of `process_id`.
    pub fn restarted(process_id: &str) -> (r: RestartResponse)
        ensures
            r.process_id@ == process_id@,
            r.message@ == "Restarted process "@ + quoted(process_id@),
    {
        let message = String::from_str("Restarted process '").concat(process_id).concat("'");
        proof {
            assert(message@ =~= "Restarted process "@ + quoted(process_id@)) by {
                reveal_strlit("Restarted process '");
                reveal_strlit("Restarted process ");
                reveal_strlit("'");
            }
        }
        RestartResponse { process_id: String::from_str(process_id), message }
    }
}

/// A state in words, as listings show it (`Online` reads `running`).
pub open spec fn status_label_of(state: ProcessState) -> Seq<char> {
    match state {
        ProcessState::Online => "running"@,
        ProcessState::Stopped => "stopped"@,
        ProcessState::Errored => "errored"@,
        ProcessState::Starting => "starting"@,
        ProcessState::Stopping => "stopping"@,
        ProcessState::Restarting => "restarting"@,
    }
}

/// Writes a state in words.
pub fn status_label(state: ProcessState) -> (s: String)
    ensures
        s@ == status_label_of(state),
{
    match state {
        ProcessState::Online => String::from_str("running"),
        ProcessState::Stopped => String::from_str("stopped"),
        ProcessState::Errored => String::from_str("errored"),
        ProcessState::Starting => String::from_str("starting"),
        ProcessState::Stopping => String::from_str("stopping"),
        ProcessState::Restarting => String::from_str("restarting"),
    }
}

/// Bytes in a mebibyte.
pub const BYTES_PER_MB: u64 = 1048576;

/// Whether the start instant of `snapshot`, if any, is an ordinary instant.
pub open spec fn start_is_ordinary(snapshot: ProcessSnapshot) -> bool {
    snapshot.start matches Some(t) ==> is_ordinary(t)
}

/// Whether `info` describes `snapshot` at the clock reading `now`, the commands
/// being `commands`: name, state in words, PID (0 when none), start time in words
/// and whole seconds up until `now` (`N/A` and 0 when not up), restarts, memory in
/// whole mebibytes, and the recorded command or `<unknown>`.
pub open spec fn describes(
    info: ProcessInfo,
    snapshot: ProcessSnapshot,
    commands: Map<Seq<char>, Seq<char>>,
    now: UtcInstant,
) -> bool {
    &&& info.name@ == snapshot.name@
    &&& info.command@ == shown_command(commands, snapshot.name@)
    &&& info.status@ == status_label_of(snapshot.state)
    &&& info.pid == (match snapshot.pid {
        Some(p) => p,
        None => 0u32,
    })
    &&& info.started_at@ == (match snapshot.start {
        Some(t) => utc_time_text(t.secs, t.nanos),
        None => "N/A"@,
    })
    &&& info.uptime_seconds == (match snapshot.start {
        Some(t) => whole_seconds_between(t, now),
        None => 0,
    })
    &&& info.restarts == snapshot.restarts
    &&& info.memory_mb == snapshot.memory_bytes / BYTES_PER_MB
}

/// Law: a listing gives memory in whole mebibytes, rounded down, a missing PID as
/// 0, and a process that is not up as started `N/A`, up for 0 seconds; it shows the
/// recorded command of a process, or `<unknown>` for one the manager did not
/// launch, and a running process as `running`.
pub proof fn law_description_fields(
    info: ProcessInfo,
    snapshot: ProcessSnapshot,
    commands: Map<Seq<char>, Seq<char>>,
    now: UtcInstant,
)
    requires
        describes(info, snapshot, commands, now),
    ensures
        info.memory_mb * 1048576 <= snapshot.memory_bytes < (info.memory_mb + 1) * 1048576,
        snapshot.pid is None ==> info.pid == 0,
        snapshot.pid matches Some(p) ==> info.pid == p,
        snapshot.start is None ==> info.started_at@ == "N/A"@ && info.uptime_seconds == 0,
        info.name@ == snapshot.name@,
        info.restarts == snapshot.restarts,
        commands.contains_key(snapshot.name@) ==> info.command@ == commands[snapshot.name@],
        !commands.contains_key(snapshot.name@) ==> info.command@ == "<unknown>"@,
        snapshot.state == ProcessState::Online ==> info.status@ == "running"@,
{
}

/// Law: every state is shown in its own words: two different states never read
/// the same.
pub proof fn law_status_words_distinct(a: ProcessState, b: ProcessState)
    requires
        a != b,
    ensures
        status_label_of(a) != status_label_of(b),
{
    reveal_strlit("running");
    reveal_strlit("stopped");
    reveal_strlit("errored");
    reveal_strlit("starting");
    reveal_strlit("stopping");
    reveal_strlit("restarting");
    if status_label_of(a) == status_label_of(b) {
        let x = status_label_of(a);
        assert(x[0] == status_label_of(b)[0]);
        assert(x[2] == status_label_of(b)[2]);
        assert(x.len() == status_label_of(b).len());
    }
}

/// Describes one listed process at the clock reading `now`.
pub fn describe_process(snapshot: &ProcessSnapshot, commands: &CommandRegistry, now: UtcInstant) -> (info: ProcessInfo)
    requires
        commands.wf(),
        is_ordinary(now),
        start_is_ordinary(*snapshot),
    ensures
        describes(info, *snapshot, commands@, now),
{
    let (started_at, uptime) = match snapshot.start {
        Some(t) => (start_time_text(t), uptime_seconds(t, now)),
        None => (String::from_str("N/A"), 0i64),
    };
    let pid = match snapshot.pid {
        Some(p) => p,
        None => 0,
    };
    ProcessInfo {
        name: snapshot.name.clone(),
        command: commands.command_or_unknown(snapshot.name.as_str()),
        status: status_label(snapshot.state),
        pid,
        started_at,
        uptime_seconds: uptime,
        restarts: snapshot.restarts,
        memory_mb: snapshot.memory_bytes / 1024 / 1024,
    }
}

/// Describes every listed process at the clock reading `now`, in the daemon's order.
pub fn list_response(snapshots: &Vec<ProcessSnapshot>, commands: &CommandRegistry, now: UtcInstant) -> (r: ListResponse)
    requires
        commands.wf(),
        is_ordinary(now),
        forall|i: int| 0 <= i < snapshots@.len() ==> start_is_ordinary(#[trigger] snapshots@[i]),
    ensures
        r.processes@.len() == snapshots@.len(),
        forall|i: int|
            0 <= i < snapshots@.len() ==> describes(#[trigger] r.processes@[i], snapshots@[i], commands@, now),
{
    let mut processes: Vec<ProcessInfo> = Vec::new();
    let mut i: usize = 0;
    while i < snapshots.len()
        invariant
            i <= snapshots@.len(),
            commands.wf(),
            is_ordinary(now),
            forall|k: int| 0 <= k < snapshots@.len() ==> start_is_ordinary(#[trigger] snapshots@[k]),
            processes@.len() == i,
            forall|k: int| 0 <= k < i ==> describes(#[trigger] processes@[k], snapshots@[k], commands@, now),
        decreases snapshots@.len() - i,
    {
        let info = describe_process(&snapshots[i], commands, now);
        processes.push(info);
        i = i + 1;
    }
    ListResponse { processes }
}

} // verus!
