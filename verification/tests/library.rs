use commander_mcp::errors::{start_refusal, ManagerError};
use commander_mcp::naming::{generate_process_id, prepare_run};
use commander_mcp::params::{default_read_lines, ReadParams};
use commander_mcp::procfs::{
    children_of, parse_ppid_from_stat, parse_state_from_stat, parse_u32, pid_alive,
    pids_in_listing,
};
use commander_mcp::registry::CommandRegistry;
use commander_mcp::responses::{
    decimal_string, describe_process, list_response, status_label, KillAllResponse, KillResponse,
    ReadResponse, RestartResponse, RunResponse,
};
use commander_mcp::startup::{
    liveness_probe, start_failure, StartupMonitor, StartupVerdict, MAX_STARTUP_CHECKS,
};
use commander_mcp::status::{
    find_process, is_stale, kill_targets, pid_of, ProcessSnapshot, ProcessState,
};
use commander_mcp::times::{ordinary, start_time_text, uptime_seconds, UtcInstant};
use commander_mcp::text::{chars_of, contains_text, find_last, split_words};

fn snapshot(name: &str, state: ProcessState, pid: Option<u32>, exit_code: Option<i32>) -> ProcessSnapshot {
    ProcessSnapshot {
        name: name.to_string(),
        state,
        pid,
        restarts: 0,
        memory_bytes: 0,
        exit_code,
        start: None,
    }
}

fn read_params_from_json(json: &str) -> ReadParams {
    let value: serde_json::Value = serde_json::from_str(json).unwrap();
    ReadParams {
        process_id: value["process_id"].as_str().unwrap().to_string(),
        lines: match value.get("lines") {
            Some(n) => n.as_u64().unwrap() as usize,
            None => default_read_lines(),
        },
    }
}

#[test]
fn test_read_params_default_lines() {
    let json = r#"{"process_id": "test_proc"}"#;
    let params = read_params_from_json(json);
    assert_eq!(params.process_id, "test_proc");
    assert_eq!(params.lines, 1000);
}

#[test]
fn test_read_params_custom_lines() {
    let json = r#"{"process_id": "test_proc", "lines": 500}"#;
    let params = read_params_from_json(json);
    assert_eq!(params.process_id, "test_proc");
    assert_eq!(params.lines, 500);
}

#[test]
fn process_id_from_readme_example() {
    assert_eq!(generate_process_id("npm run dev"), "npm_run");
}

#[test]
fn process_id_of_commands_used_by_the_server_tests() {
    assert_eq!(generate_process_id("sleep 5"), "sleep_5");
    assert_eq!(generate_process_id("sleep 10"), "sleep_10");
    assert_eq!(generate_process_id("python -m http.server"), "python");
    assert_eq!(generate_process_id("python3 -m http.server 9999"), "python3");
    assert_eq!(generate_process_id("echo test"), "echo_test");
    assert_eq!(generate_process_id("sh -c 'sleep 30 & sleep 30'"), "sh");
    assert_eq!(generate_process_id("nonexistent_command_12345"), "nonexistent_command_12345");
}

#[test]
fn process_id_without_usable_words_is_proc() {
    assert_eq!(generate_process_id(""), "proc");
    assert_eq!(generate_process_id("   \t "), "proc");
    assert_eq!(generate_process_id("--verbose -x run"), "proc");
}

#[test]
fn process_id_cleans_and_lowercases() {
    assert_eq!(generate_process_id("Node Server.JS"), "node_serverjs");
    assert_eq!(generate_process_id("./run.sh --fast"), "runsh");
    assert_eq!(generate_process_id("-v cargo build"), "cargo");
    assert_eq!(generate_process_id("  cargo   build  "), "cargo_build");
    assert_eq!(generate_process_id("ÄBC déf"), "äbc_déf");
    assert_eq!(generate_process_id("@@@"), "");
}

#[test]
fn process_id_depends_on_first_two_words_only() {
    assert_eq!(generate_process_id("cargo build --release"), generate_process_id("cargo build"));
}

#[test]
fn prepare_run_refuses_empty_command() {
    assert!(matches!(prepare_run(""), Err(ManagerError::EmptyCommand)));
    assert!(matches!(prepare_run("  \n "), Err(ManagerError::EmptyCommand)));
}

#[test]
fn launch_with_empty_name_is_refused() {
    match prepare_run("@@@") {
        Ok(plan) => {
            assert_eq!(plan.process_id, "");
            assert_eq!(plan.launch.script, "@@@");
            assert!(matches!(plan.daemon_config(), Err(ManagerError::InvalidConfig)));
            assert_eq!(ManagerError::InvalidConfig.message(), "Failed to build process config");
        }
        Err(_) => panic!("a plan was expected"),
    }
}

#[test]
fn prepare_run_splits_program_and_arguments() {
    match prepare_run("npm run  dev") {
        Ok(plan) => {
            assert_eq!(plan.process_id, "npm_run");
            assert_eq!(plan.command, "npm run  dev");
            assert_eq!(plan.launch.name, "npm_run");
            assert_eq!(plan.launch.script, "npm");
            assert_eq!(plan.launch.args, vec!["run".to_string(), "dev".to_string()]);
            assert!(!plan.launch.autorestart);
            assert_eq!(plan.launch.max_restarts, 0);
            let config = match plan.daemon_config() {
                Ok(config) => config,
                Err(_) => panic!("a configuration was expected"),
            };
            assert!(!config.autorestart);
            assert_eq!(config.max_restarts, 0);
            assert_eq!(config.name, "npm_run");
            assert_eq!(config.script, "npm");
            assert_eq!(config.args, vec!["run".to_string(), "dev".to_string()]);
        }
        Err(_) => panic!("a plan was expected"),
    }
}

#[test]
fn ppid_is_read_after_command_name() {
    assert_eq!(parse_ppid_from_stat("1234 (bash) S 1000 1234 1234 0"), Some(1000));
    assert_eq!(parse_ppid_from_stat("7 (a (b) c) R 77 1"), Some(77));
    assert_eq!(parse_ppid_from_stat("7 (my prog) S\t42\n"), Some(42));
}

#[test]
fn ppid_missing_or_malformed() {
    assert_eq!(parse_ppid_from_stat("no paren here 1 2"), None);
    assert_eq!(parse_ppid_from_stat("5 (x)"), None);
    assert_eq!(parse_ppid_from_stat("5 (x) S"), None);
    assert_eq!(parse_ppid_from_stat("5 (x) S abc"), None);
    assert_eq!(parse_ppid_from_stat("5 (x) S -1"), None);
    assert_eq!(parse_ppid_from_stat("5 (x) S 4294967296"), None);
    assert_eq!(parse_ppid_from_stat("5 (x) S 4294967295"), Some(u32::MAX));
    assert_eq!(parse_ppid_from_stat("5 (x) S +42"), Some(42));
}

#[test]
fn listing_numbers_follow_std_parsing() {
    let names: Vec<String> = ["0012", "+7", "+", "", " 1", "-0", "4294967295", "4294967296", "1_0"]
        .iter()
        .map(|s| s.to_string())
        .collect();
    assert_eq!(pids_in_listing(&names), vec![12, 7, u32::MAX]);
}

#[test]
fn u32_parsing_follows_std() {
    for text in ["0012", "+7", "+", "", " 1", "-0", "4294967295", "4294967296", "99999999999", "1_0", "٣"] {
        assert_eq!(parse_u32(text), text.parse::<u32>().ok(), "{}", text);
    }
}

#[test]
fn whitespace_splitting_uses_unicode_white_space() {
    assert!(matches!(prepare_run("   "), Err(ManagerError::EmptyCommand)));
    assert_eq!(generate_process_id("a\u{00A0}b"), "a_b");
    assert_eq!(generate_process_id("a\u{3000}b\u{2028}c"), "a_b");
    assert_eq!(
        split_words(&chars_of("x\u{200B}y")),
        vec![vec!['x', '\u{200B}', 'y']]
    );
}

#[test]
fn state_letter_is_first_field() {
    assert_eq!(parse_state_from_stat("1 (x) Z 0"), Some('Z'));
    assert_eq!(parse_state_from_stat("1 (x)  \t R 0"), Some('R'));
    assert_eq!(parse_state_from_stat("1 (x)"), None);
    assert_eq!(parse_state_from_stat("nothing"), None);
}

#[test]
fn zombies_and_missing_entries_are_not_alive() {
    assert!(!pid_alive(false, &None));
    assert!(!pid_alive(false, &Some("1 (x) S 1".to_string())));
    assert!(pid_alive(true, &None));
    assert!(!pid_alive(true, &Some("1 (x) Z 1".to_string())));
    assert!(pid_alive(true, &Some("1 (x) S 1".to_string())));
    assert!(pid_alive(true, &Some("garbage".to_string())));
}

#[test]
fn listing_keeps_numeric_entries() {
    let names: Vec<String> =
        ["1", "self", "42", "+7", "-3", "0012", "sys"].iter().map(|s| s.to_string()).collect();
    assert_eq!(pids_in_listing(&names), vec![1, 42, 7, 12]);
}

#[test]
fn children_are_selected_by_parent_pid() {
    let table = vec![
        (11, Some("11 (a) S 10 11".to_string())),
        (12, None),
        (13, Some("13 (b) S 11 13".to_string())),
        (14, Some("14 (c (d)) R 10 14".to_string())),
        (15, Some("15 (e) R".to_string())),
    ];
    assert_eq!(children_of(10, &table), vec![11, 14]);
    assert_eq!(children_of(11, &table), vec![13]);
    assert_eq!(children_of(99, &table), Vec::<u32>::new());
}

#[test]
fn healthy_launch_is_started_after_five_checks() {
    let s = snapshot("sleep_5", ProcessState::Online, Some(100), None);
    let mut monitor = StartupMonitor::new();
    for _ in 1..MAX_STARTUP_CHECKS {
        assert_eq!(monitor.observe(Some(&s), true), StartupVerdict::Waiting);
    }
    assert_eq!(monitor.observe(Some(&s), true), StartupVerdict::Started);
    assert_eq!(monitor.checks(), 5);
}

#[test]
fn launch_failures_end_the_watch() {
    let mut m = StartupMonitor::new();
    let exited_badly = snapshot("x", ProcessState::Stopped, None, Some(1));
    assert_eq!(m.observe(Some(&exited_badly), true), StartupVerdict::Crashed);

    let mut m = StartupMonitor::new();
    let errored = snapshot("x", ProcessState::Errored, Some(5), None);
    assert_eq!(m.observe(Some(&errored), true), StartupVerdict::Crashed);

    let mut m = StartupMonitor::new();
    let no_pid = snapshot("x", ProcessState::Starting, None, None);
    assert_eq!(m.observe(Some(&no_pid), true), StartupVerdict::Crashed);

    let mut m = StartupMonitor::new();
    let dead_pid = snapshot("x", ProcessState::Online, Some(5), None);
    assert_eq!(m.observe(Some(&dead_pid), false), StartupVerdict::Crashed);

    let mut m = StartupMonitor::new();
    assert_eq!(m.observe(None, true), StartupVerdict::Vanished);
}

#[test]
fn failed_watch_reports_its_error() {
    let crashed = start_failure(StartupVerdict::Crashed, "x".to_string(), "oops".to_string());
    assert_eq!(crashed.message(), "Process 'x' failed to start. Logs:\noops");
    let vanished = start_failure(StartupVerdict::Vanished, "x".to_string(), String::new());
    assert!(matches!(vanished, ManagerError::VanishedOnStart { .. }));
}

#[test]
fn kill_after_run_restores_registry() {
    let mut r = CommandRegistry::new();
    r.record_launch("echo test");
    r.record_launch("sleep 5");
    r.remove("sleep_5");
    assert_eq!(r.get("sleep_5"), None);
    assert_eq!(r.command_or_unknown("echo_test"), "echo test");
}

#[test]
fn clean_exit_is_not_a_failed_launch() {
    let done = snapshot("echo_test", ProcessState::Stopped, None, Some(0));
    let mut m = StartupMonitor::new();
    assert_eq!(m.observe(Some(&done), false), StartupVerdict::Waiting);
}

#[test]
fn liveness_probe_only_without_exit_code() {
    assert_eq!(liveness_probe(&snapshot("x", ProcessState::Online, Some(5), None)), Some(5));
    assert_eq!(liveness_probe(&snapshot("x", ProcessState::Stopped, Some(5), Some(0))), None);
    assert_eq!(liveness_probe(&snapshot("x", ProcessState::Online, None, None)), None);
}

#[test]
fn duplicate_start_is_reported_as_existing() {
    let e = start_refusal("sleep_10", "Process already exists: sleep_10");
    assert!(matches!(&e, ManagerError::AlreadyExists { process_id } if process_id == "sleep_10"));
    assert_eq!(
        e.message(),
        "Process 'sleep_10' already exists. Use the 'restart' tool to restart it, or 'kill' then 'run' to start fresh."
    );
    assert!(matches!(start_refusal("a", "duplicate name"), ManagerError::AlreadyExists { .. }));
}

#[test]
fn other_start_refusals_keep_the_reason() {
    let e = start_refusal("x", "Configuration error: bad");
    assert_eq!(e.message(), "Failed to start process 'x': Configuration error: bad");
}

#[test]
fn error_messages() {
    assert_eq!(ManagerError::EmptyCommand.message(), "Empty command");
    assert_eq!(ManagerError::InvalidConfig.message(), "Failed to build process config");
    let crashed = ManagerError::CrashedOnStart { process_id: "p".to_string(), logs: "boom".to_string() };
    assert_eq!(crashed.message(), "Process 'p' failed to start. Logs:\nboom");
    assert!(crashed.message().contains("Logs:"));
    let vanished = ManagerError::VanishedOnStart { process_id: "p".to_string(), logs: String::new() };
    assert_eq!(vanished.message(), "Process 'p' failed to start (not found in process list). Logs:\n");
    assert_eq!(
        ManagerError::KillFailed { process_id: "p".to_string() }.message(),
        "Failed to kill process 'p' - it may not exist or may have already stopped"
    );
    assert_eq!(ManagerError::StopFailed { process_id: "p".to_string() }.message(), "Failed to stop process 'p'");
    assert_eq!(
        ManagerError::RestartFailed { process_id: "p".to_string() }.message(),
        "Failed to restart process 'p'"
    );
    assert_eq!(
        ManagerError::ReadFailed { process_id: "p".to_string(), reason: "gone".to_string() }.message(),
        "Failed to read logs for process 'p': gone"
    );
    assert_eq!(ManagerError::DeleteAllFailed.message(), "Failed to delete all processes");
    assert_eq!(ManagerError::CleanupListFailed.message(), "Failed to list processes during cleanup");
    assert_eq!(
        ManagerError::CleanupDeleteFailed.message(),
        "Failed to delete all processes during cleanup"
    );
    assert_eq!(ManagerError::Daemon { reason: "IO error: x".to_string() }.message(), "IO error: x");
}

#[test]
fn registry_read_after_write() {
    let mut r = CommandRegistry::new();
    assert_eq!(r.command_or_unknown("sleep_5"), "<unknown>");
    r.record_launch("sleep 5");
    r.record_launch("npm run dev");
    assert_eq!(r.get("sleep_5"), Some("sleep 5".to_string()));
    assert_eq!(r.command_or_unknown("npm_run"), "npm run dev");
    r.record_launch("sleep   5 --long");
    assert_eq!(r.get("sleep_5"), Some("sleep   5 --long".to_string()));
    r.remove("sleep_5");
    assert_eq!(r.get("sleep_5"), None);
    assert_eq!(r.command_or_unknown("npm_run"), "npm run dev");
    r.remove("not_there");
    r.clear();
    assert_eq!(r.command_or_unknown("npm_run"), "<unknown>");
}

#[test]
fn response_messages() {
    let run = RunResponse::started("test".to_string(), "echo hello".to_string(), None);
    assert_eq!(run.message, "Started process 'test'");
    assert_eq!(run.command, "echo hello");
    assert!(run.logs.is_none());
    assert_eq!(KillResponse::killed("x").message, "Killed and removed process 'x'");
    assert_eq!(KillResponse::stopped("x").message, "Stopped process 'x'");
    assert_eq!(RestartResponse::restarted("x").message, "Restarted process 'x'");
    let all = KillAllResponse::deleted(3);
    assert_eq!(all.stopped_count, 3);
    assert_eq!(all.message, "Killed and removed 3 process(es)");
    assert_eq!(KillAllResponse::deleted(0).message, "Killed and removed 0 process(es)");
    let read = ReadResponse::new("x", String::new());
    assert_eq!(read.process_id, "x");
    assert_eq!(read.logs, "");
}

#[test]
fn start_times_and_uptimes() {
    let epoch = UtcInstant { secs: 0, nanos: 0 };
    assert_eq!(start_time_text(epoch), "1970-01-01 00:00:00 UTC");
    let t = UtcInstant { secs: 1704164645, nanos: 999_999_999 };
    assert_eq!(start_time_text(t), "2024-01-02 03:04:05 UTC");
    assert_eq!(start_time_text(UtcInstant { secs: -1, nanos: 0 }), "1969-12-31 23:59:59 UTC");
    let later = UtcInstant { secs: 1704164650, nanos: 0 };
    assert_eq!(uptime_seconds(t, later), 4);
    assert_eq!(uptime_seconds(later, t), -4);
    assert_eq!(uptime_seconds(t, t), 0);
    assert_eq!(uptime_seconds(epoch, UtcInstant { secs: 0, nanos: 999_999_999 }), 0);
    assert_eq!(uptime_seconds(UtcInstant { secs: 0, nanos: 999_999_999 }, epoch), 0);
    assert!(ordinary(t));
    assert!(!ordinary(UtcInstant { secs: 59, nanos: 1_500_000_000 }));
    assert!(!ordinary(UtcInstant { secs: i64::MAX, nanos: 0 }));
}

#[test]
fn decimal_writing() {
    assert_eq!(decimal_string(0), "0");
    assert_eq!(decimal_string(7), "7");
    assert_eq!(decimal_string(10), "10");
    assert_eq!(decimal_string(1234567890), "1234567890");
    assert_eq!(decimal_string(usize::MAX), usize::MAX.to_string());
}

#[test]
fn status_words() {
    assert_eq!(status_label(ProcessState::Online), "running");
    assert_eq!(status_label(ProcessState::Stopped), "stopped");
    assert_eq!(status_label(ProcessState::Errored), "errored");
    assert_eq!(status_label(ProcessState::Starting), "starting");
    assert_eq!(status_label(ProcessState::Stopping), "stopping");
    assert_eq!(status_label(ProcessState::Restarting), "restarting");
}

#[test]
fn listing_describes_each_process() {
    let mut registry = CommandRegistry::new();
    registry.record_launch("python -m http.server");
    let mut up = snapshot("python", ProcessState::Online, Some(321), None);
    up.memory_bytes = 5 * 1024 * 1024 + 1;
    up.restarts = 2;
    // 2024-01-02 03:04:05.5 UTC, listed 42.7 seconds later.
    up.start = Some(UtcInstant { secs: 1704164645, nanos: 500_000_000 });
    let now = UtcInstant { secs: 1704164688, nanos: 200_000_000 };
    let down = snapshot("other", ProcessState::Stopped, None, Some(0));

    let info = describe_process(&up, &registry, now);
    assert_eq!(info.name, "python");
    assert_eq!(info.command, "python -m http.server");
    assert_eq!(info.status, "running");
    assert_eq!(info.pid, 321);
    assert_eq!(info.started_at, "2024-01-02 03:04:05 UTC");
    assert_eq!(info.uptime_seconds, 42);
    assert_eq!(info.restarts, 2);
    assert_eq!(info.memory_mb, 5);

    let list = list_response(&vec![up, down], &registry, now);
    assert_eq!(list.processes.len(), 2);
    let other = &list.processes[1];
    assert_eq!(other.command, "<unknown>");
    assert_eq!(other.status, "stopped");
    assert_eq!(other.pid, 0);
    assert_eq!(other.started_at, "N/A");
    assert_eq!(other.uptime_seconds, 0);
    assert_eq!(other.memory_mb, 0);
}

#[test]
fn lookup_by_name_takes_first_match() {
    let list = vec![
        snapshot("a", ProcessState::Online, Some(1), None),
        snapshot("sh", ProcessState::Online, None, None),
        snapshot("sh", ProcessState::Online, Some(3), None),
    ];
    assert_eq!(find_process(&list, "sh"), Some(1));
    assert_eq!(find_process(&list, "zz"), None);
    assert_eq!(pid_of(&list, "a"), Some(1));
    assert_eq!(pid_of(&list, "sh"), None);
    assert_eq!(pid_of(&list, "zz"), None);
}

#[test]
fn kill_targets_are_processes_with_pids() {
    let list = vec![
        snapshot("a", ProcessState::Online, Some(1), None),
        snapshot("b", ProcessState::Stopped, None, Some(0)),
        snapshot("c", ProcessState::Online, Some(3), None),
    ];
    assert_eq!(kill_targets(&list), vec![("a".to_string(), 1), ("c".to_string(), 3)]);
}

#[test]
fn stale_processes_at_startup() {
    assert!(is_stale(&snapshot("a", ProcessState::Stopped, Some(1), None), true));
    assert!(is_stale(&snapshot("a", ProcessState::Errored, Some(1), None), true));
    assert!(is_stale(&snapshot("a", ProcessState::Online, None, None), true));
    assert!(is_stale(&snapshot("a", ProcessState::Online, Some(1), None), false));
    assert!(!is_stale(&snapshot("a", ProcessState::Online, Some(1), None), true));
}

#[test]
fn text_helpers() {
    let words = split_words(&chars_of(" a  bc\td "));
    assert_eq!(words, vec![vec!['a'], vec!['b', 'c'], vec!['d']]);
    assert!(contains_text("Process already exists: x", "already exists"));
    assert!(!contains_text("already exist", "already exists"));
    assert!(contains_text("abc", ""));
    assert_eq!(find_last(&chars_of("a)b)c"), ')'), Some(3));
    assert_eq!(find_last(&chars_of("abc"), ')'), None);
}

#[test]
fn default_read_lines_is_thousand() {
    assert_eq!(default_read_lines(), 1000);
}
