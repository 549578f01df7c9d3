use sentinel::clock::Timestamp;
use sentinel::engine::launch::{plan_launch, split_words};
use sentinel::engine::log_buffer::{LogLine, LogStream};
use sentinel::engine::process_manager::{
    after_wait, PollOutcome, ProcessManager, StopFollowUp, StopPlan, WaitOutcome,
    GRACEFUL_STOP_GRACE_MS, STOP_GRACE_MS,
};
use sentinel::engine::restart::{
    compute_backoff, decide_restart, restart_limit_exceeded, RestartDecision,
};
use sentinel::error::SentinelError;
use sentinel::models::config::ProcessConfig;
use sentinel::models::process::ProcessState;

fn managed(name: &str, command: &str) -> ProcessConfig {
    ProcessConfig {
        name: name.to_string(),
        command: command.to_string(),
        args: vec![],
        cwd: None,
        env: vec![],
        auto_restart: false,
        restart_limit: 0,
        restart_delay: 100,
        depends_on: vec![],
        health_check: None,
    }
}

fn at(secs: i64) -> Timestamp {
    Timestamp { secs, nanos: 0 }
}

fn line(text: &str) -> LogLine {
    LogLine { timestamp: at(1), stream: LogStream::Stdout, line: text.to_string() }
}

fn pid_matches_state_everywhere(manager: &ProcessManager) {
    for info in manager.list() {
        assert_eq!(info.state == ProcessState::Running, info.pid.is_some(), "{}", info.name);
    }
}

#[test]
fn manager_start_records_a_running_process() {
    let mut manager = ProcessManager::new();
    let config = ProcessConfig { args: vec!["hello".to_string()], ..managed("t", "echo") };

    let plan = manager.plan_start(&config).unwrap();
    assert_eq!(plan.program, "echo");
    assert_eq!(plan.args, vec!["hello".to_string()]);
    assert!(manager.list().is_empty());

    let info = manager.record_started_at(config, 4242, at(10)).unwrap();
    assert_eq!(info.name, "t");
    assert_eq!(info.state, ProcessState::Running);
    assert_eq!(info.pid, Some(4242));
    assert_eq!(info.command, "echo");
    assert_eq!(info.restart_count, 0);
    assert_eq!(info.started_at, Some(at(10)));
    assert_eq!(info.stopped_at, None);

    assert!(manager.is_running("t"));
    assert_eq!(manager.get("t").unwrap().pid, Some(4242));
    assert!(manager.get("nonexistent").is_none());
    assert!(!manager.is_running("nonexistent"));
    pid_matches_state_everywhere(&manager);
}

#[test]
fn manager_refuses_to_start_a_running_process() {
    let mut manager = ProcessManager::new();
    manager.record_started_at(managed("t", "sleep 10"), 77, at(1)).unwrap();

    match manager.plan_start(&managed("t", "anything else")) {
        Err(SentinelError::ProcessAlreadyRunning { name, pid }) => {
            assert_eq!(name, "t");
            assert_eq!(pid, 77);
        },
        other => panic!("unexpected result: {:?}", other),
    }
    match manager.record_started_at(managed("t", "sleep 10"), 78, at(2)) {
        Err(SentinelError::ProcessAlreadyRunning { name, pid }) => {
            assert_eq!(name, "t");
            assert_eq!(pid, 77);
        },
        other => panic!("unexpected result: {:?}", other),
    }
    assert_eq!(manager.get("t").unwrap().pid, Some(77));
    assert_eq!(manager.list().len(), 1);
}

#[test]
fn manager_splits_the_command_where_there_are_no_arguments() {
    let manager = ProcessManager::new();
    let plan = manager.plan_start(&managed("s", "  sh -c\t'exit 1'  ")).unwrap();
    assert_eq!(plan.program, "sh");
    assert_eq!(plan.args, vec!["-c".to_string(), "'exit".to_string(), "1'".to_string()]);

    let config = ProcessConfig {
        args: vec!["a b".to_string()],
        cwd: Some("/srv".to_string()),
        env: vec![("K".to_string(), "1".to_string()), ("K".to_string(), "2".to_string())],
        ..managed("s", "my program")
    };
    let plan = plan_launch(&config).unwrap();
    assert_eq!(plan.program, "my program");
    assert_eq!(plan.args, vec!["a b".to_string()]);
    assert_eq!(plan.cwd, Some("/srv".to_string()));
    assert_eq!(plan.env, vec![("K".to_string(), "1".to_string()), ("K".to_string(), "2".to_string())]);

    match manager.plan_start(&managed("empty", " \n ")) {
        Err(SentinelError::InvalidConfig { reason }) => {
            assert_eq!(reason, "Empty command for process 'empty'")
        },
        other => panic!("unexpected result: {:?}", other),
    }
    assert!(split_words("").is_empty());
    assert_eq!(split_words("one"), vec!["one".to_string()]);
    assert_eq!(split_words("a\u{a0}b c"), vec!["a\u{a0}b".to_string(), "c".to_string()]);
    assert_eq!(split_words("x\r\ny\u{c}z"), vec!["x".to_string(), "y".to_string(), "z".to_string()]);
}

#[test]
fn manager_stop_goes_through_stopping_to_stopped() {
    let mut manager = ProcessManager::new();
    manager.record_started_at(managed("u", "sleep 5"), 900, at(1)).unwrap();

    let plan = manager.begin_stop("u").unwrap();
    assert_eq!(plan, StopPlan::Terminate { pid: 900, grace_ms: 10_000 });
    assert_eq!(STOP_GRACE_MS, 10_000);
    assert_eq!(manager.get("u").unwrap().state, ProcessState::Stopping);
    assert_eq!(manager.get("u").unwrap().pid, None);
    assert!(!manager.is_running("u"));
    pid_matches_state_everywhere(&manager);

    assert_eq!(after_wait(WaitOutcome::Exited), StopFollowUp::Finish);
    assert_eq!(after_wait(WaitOutcome::WaitFailed), StopFollowUp::Finish);
    assert_eq!(after_wait(WaitOutcome::TimedOut), StopFollowUp::ForceKill);

    manager.finish_stop_at("u", at(9)).unwrap();
    let info = manager.get("u").unwrap();
    assert_eq!(info.state, ProcessState::Stopped);
    assert_eq!(info.pid, None);
    assert_eq!(info.stopped_at, Some(at(9)));
    assert_eq!(info.started_at, Some(at(1)));
    assert!(!manager.is_running("u"));
}

#[test]
fn manager_graceful_stop_has_the_shorter_grace_window() {
    let mut manager = ProcessManager::new();
    manager.record_started_at(managed("u", "sleep 30"), 901, at(1)).unwrap();
    let plan = manager.begin_graceful_stop("u").unwrap();
    assert_eq!(plan, StopPlan::Terminate { pid: 901, grace_ms: 5_000 });
    assert_eq!(GRACEFUL_STOP_GRACE_MS, 5_000);
    manager.finish_stop("u").unwrap();
    assert_eq!(manager.get("u").unwrap().state, ProcessState::Stopped);
    assert_eq!(manager.get("u").unwrap().pid, None);
    assert!(manager.get("u").unwrap().stopped_at.is_some());
    let custom = {
        manager.record_started_at(managed("v", "sleep 30"), 902, at(2)).unwrap();
        manager.begin_stop_within("v", 250).unwrap()
    };
    assert_eq!(custom, StopPlan::Terminate { pid: 902, grace_ms: 250 });
}

#[test]
fn manager_stop_of_a_stopped_process_changes_nothing() {
    let mut manager = ProcessManager::new();
    manager.record_started_at(managed("u", "sleep 5"), 900, at(1)).unwrap();
    manager.begin_stop("u").unwrap();
    manager.finish_stop_at("u", at(5)).unwrap();

    assert_eq!(manager.begin_stop("u").unwrap(), StopPlan::AlreadyStopped);
    assert_eq!(manager.begin_graceful_stop("u").unwrap(), StopPlan::AlreadyStopped);
    manager.finish_stop_at("u", at(99)).unwrap();
    let info = manager.get("u").unwrap();
    assert_eq!(info.state, ProcessState::Stopped);
    assert_eq!(info.stopped_at, Some(at(5)));
    assert_eq!(info.pid, None);
}

#[test]
fn manager_finish_stop_leaves_a_running_process_alone() {
    let mut manager = ProcessManager::new();
    manager.record_started_at(managed("u", "sleep 5"), 900, at(1)).unwrap();
    manager.finish_stop_at("u", at(5)).unwrap();
    assert!(manager.is_running("u"));
    assert_eq!(manager.get("u").unwrap().pid, Some(900));
    assert_eq!(manager.get("u").unwrap().stopped_at, None);
}

#[test]
fn manager_reports_unknown_names() {
    let mut manager = ProcessManager::new();
    assert!(matches!(
        manager.begin_stop("nonexistent"),
        Err(SentinelError::ProcessNotFound { .. })
    ));
    match manager.begin_graceful_stop("ghost") {
        Err(SentinelError::ProcessNotFound { name }) => assert_eq!(name, "ghost"),
        other => panic!("unexpected result: {:?}", other),
    }
    assert!(matches!(manager.finish_stop("ghost"), Err(SentinelError::ProcessNotFound { .. })));
    assert!(matches!(manager.begin_restart("ghost"), Err(SentinelError::ProcessNotFound { .. })));
    assert!(matches!(manager.clear_logs("ghost"), Err(SentinelError::ProcessNotFound { .. })));
    assert!(matches!(
        manager.record_restart_at("ghost", 1, at(1)),
        Err(SentinelError::ProcessNotFound { .. })
    ));
    assert!(manager.get_logs("ghost").is_none());
    assert!(manager.get_recent_logs("ghost", 3).is_none());
    assert!(manager.search_logs("ghost", "x").is_none());
    assert!(manager.generation_of("ghost").is_none());
    assert!(!manager.record_output("ghost", 0, line("x")));
    assert_eq!(
        manager.observe_poll_at("ghost", PollOutcome::Exited { exit_code: Some(1) }, at(1)),
        RestartDecision::NoRestart
    );
    assert!(manager.remove("ghost").is_ok());
}

#[test]
fn manager_restart_plan_carries_the_configuration_and_its_delay() {
    let mut manager = ProcessManager::new();
    let config = ProcessConfig { restart_delay: 750, ..managed("r", "echo test") };
    manager.record_started_at(config, 10, at(1)).unwrap();
    let plan = manager.begin_restart("r").unwrap();
    assert_eq!(plan.delay_ms, 750);
    assert_eq!(plan.config.name, "r");
    assert_eq!(plan.config.command, "echo test");
    // A restart at the caller's request: stop, then start from the plan.
    manager.begin_stop("r").unwrap();
    manager.finish_stop_at("r", at(2)).unwrap();
    let info = manager.record_started_at(plan.config, 11, at(3)).unwrap();
    assert_eq!(info.pid, Some(11));
    assert_eq!(info.restart_count, 0);
    assert_eq!(manager.list().len(), 1);
}

#[test]
fn manager_lists_each_name_once_and_the_same_way_twice() {
    let mut manager = ProcessManager::new();
    manager.record_started_at(managed("proc1", "echo 1"), 1, at(1)).unwrap();
    manager.record_started_at(managed("proc2", "echo 2"), 2, at(1)).unwrap();
    manager.begin_stop("proc1").unwrap();
    manager.finish_stop_at("proc1", at(2)).unwrap();
    manager.record_started_at(managed("proc1", "echo again"), 3, at(3)).unwrap();

    let list = manager.list();
    assert_eq!(list.len(), 2);
    let names: Vec<&str> = list.iter().map(|p| p.name.as_str()).collect();
    assert_eq!(names, vec!["proc1", "proc2"]);
    assert_eq!(list[0].pid, Some(3));
    assert_eq!(list[0].command, "echo again");

    let again = manager.list();
    assert_eq!(again.len(), list.len());
    for (a, b) in list.iter().zip(again.iter()) {
        assert_eq!(a.name, b.name);
        assert_eq!(a.state, b.state);
        assert_eq!(a.pid, b.pid);
        assert_eq!(a.restart_count, b.restart_count);
        assert_eq!(a.started_at, b.started_at);
        assert_eq!(a.stopped_at, b.stopped_at);
    }
    assert_eq!(manager.managed_names(), vec!["proc1".to_string(), "proc2".to_string()]);
    assert_eq!(manager.health_targets(), vec!["proc1".to_string(), "proc2".to_string()]);
    manager.begin_stop("proc2").unwrap();
    assert_eq!(manager.health_targets(), vec!["proc1".to_string()]);
    assert!(ProcessManager::default().list().is_empty());
}

#[test]
fn manager_removes_only_what_does_not_run() {
    let mut manager = ProcessManager::new();
    manager.record_started_at(managed("keep", "sleep 1"), 1, at(1)).unwrap();
    manager.record_started_at(managed("test", "sleep 10"), 2, at(1)).unwrap();

    match manager.remove("test") {
        Err(SentinelError::Other(text)) => {
            assert_eq!(text, "Cannot remove running process. Stop it first.")
        },
        other => panic!("unexpected result: {:?}", other),
    }
    assert!(manager.get("test").is_some());

    manager.begin_stop("test").unwrap();
    manager.finish_stop_at("test", at(2)).unwrap();
    manager.remove("test").unwrap();
    assert!(manager.get("test").is_none());
    assert!(manager.is_running("keep"));
    assert_eq!(manager.list().len(), 1);
}

#[test]
fn manager_keeps_the_log_of_each_process() {
    let mut manager = ProcessManager::new();
    manager.record_started_at(managed("c", "sh"), 5, at(1)).unwrap();
    manager.record_started_at(managed("d", "sh"), 6, at(1)).unwrap();
    let generation = manager.generation_of("c").unwrap();
    assert_ne!(generation, manager.generation_of("d").unwrap());

    assert!(manager.record_output("c", generation, line("Error: boom")));
    assert!(manager.record_output("c", generation, line("info: ok")));
    assert!(manager.record_output("c", generation, line("Line 3")));
    assert!(!manager.record_output("c", generation + 100, line("from an earlier child")));

    let logs = manager.get_logs("c").unwrap();
    assert_eq!(logs.len(), 3);
    assert_eq!(logs[0].line, "Error: boom");
    assert_eq!(logs[0].stream, LogStream::Stdout);
    assert!(manager.get_logs("d").unwrap().is_empty());

    let recent = manager.get_recent_logs("c", 2).unwrap();
    assert_eq!(recent.len(), 2);
    assert_eq!(recent[0].line, "info: ok");
    assert_eq!(recent[1].line, "Line 3");

    let found = manager.search_logs("c", "error").unwrap();
    assert_eq!(found.len(), 1);
    assert_eq!(found[0].line, "Error: boom");

    manager.clear_logs("c").unwrap();
    assert!(manager.get_logs("c").unwrap().is_empty());

    // Lines that come after the end of the process still reach its log.
    manager.begin_stop("c").unwrap();
    manager.finish_stop_at("c", at(2)).unwrap();
    assert!(manager.record_output("c", generation, line("last words")));
    assert_eq!(manager.get_logs("c").unwrap().len(), 1);

    // A new spawn gets a new log; the child of the old spawn no longer writes to it.
    manager.record_started_at(managed("c", "sh"), 7, at(3)).unwrap();
    assert!(manager.get_logs("c").unwrap().is_empty());
    assert!(!manager.record_output("c", generation, line("stale")));
    let fresh = manager.generation_of("c").unwrap();
    assert!(manager.record_output("c", fresh, line("new")));
    assert_eq!(manager.get_logs("c").unwrap()[0].line, "new");
}

#[test]
fn manager_health_sweep_leaves_running_children_alone() {
    let mut manager = ProcessManager::new();
    let config = ProcessConfig { auto_restart: true, restart_limit: 2, ..managed("c", "sleep 9") };
    manager.record_started_at(config, 5, at(1)).unwrap();
    manager.record_started_at(managed("d", "sleep 9"), 6, at(1)).unwrap();

    let mut restarted: Vec<String> = Vec::new();
    for name in manager.health_targets() {
        match manager.observe_poll_at(&name, PollOutcome::StillRunning, at(2)) {
            RestartDecision::Restart { .. } => restarted.push(name),
            _ => {},
        }
    }
    assert!(restarted.is_empty());
    assert_eq!(manager.observe_poll_at("c", PollOutcome::PollFailed, at(2)), RestartDecision::NoRestart);
    assert_eq!(manager.observe_poll("d", PollOutcome::StillRunning), RestartDecision::NoRestart);
    assert!(manager.is_running("c") && manager.is_running("d"));
    assert_eq!(manager.get("c").unwrap().state, ProcessState::Running);
    assert_eq!(manager.get("c").unwrap().stopped_at, None);
}

#[test]
fn manager_crash_is_seen_by_the_sweep_and_not_before() {
    let mut manager = ProcessManager::new();
    manager.record_started_at(managed("c", "sh -c 'exit 3'"), 5, at(1)).unwrap();
    // The child may have ended by now; the handle runs until a sweep sees it.
    assert_eq!(manager.get("c").unwrap().state, ProcessState::Running);
    assert!(manager.is_running("c"));

    let decision = manager.observe_poll_at("c", PollOutcome::Exited { exit_code: Some(3) }, at(4));
    assert_eq!(decision, RestartDecision::NoRestart);
    let info = manager.get("c").unwrap();
    assert_eq!(info.state, ProcessState::Crashed { exit_code: 3 });
    assert_eq!(info.pid, None);
    assert_eq!(info.stopped_at, Some(at(4)));
    assert!(manager.health_targets().is_empty());
    pid_matches_state_everywhere(&manager);

    // A child that a signal ended has no exit code of its own.
    manager.record_started_at(managed("k", "sleep 9"), 6, at(1)).unwrap();
    manager.observe_poll("k", PollOutcome::Exited { exit_code: None });
    assert_eq!(manager.get("k").unwrap().state, ProcessState::Crashed { exit_code: -1 });
    // A second report about the same child changes nothing.
    let again = manager.observe_poll_at("c", PollOutcome::Exited { exit_code: Some(9) }, at(8));
    assert_eq!(again, RestartDecision::NoRestart);
    assert_eq!(manager.get("c").unwrap().state, ProcessState::Crashed { exit_code: 3 });
}

#[test]
fn manager_restarts_a_crashed_process_within_its_budget() {
    let mut manager = ProcessManager::new();
    let config = ProcessConfig {
        args: vec!["-c".to_string(), "exit 1".to_string()],
        auto_restart: true,
        restart_limit: 2,
        restart_delay: 50,
        ..managed("c", "sh")
    };
    manager.record_started_at(config, 100, at(1)).unwrap();

    let exited = PollOutcome::Exited { exit_code: Some(1) };
    assert_eq!(
        manager.observe_poll_at("c", exited, at(2)),
        RestartDecision::Restart { delay_ms: 50, attempt: 1 }
    );
    let info = manager.record_restart_at("c", 101, at(3)).unwrap();
    assert_eq!(info.pid, Some(101));
    assert_eq!(info.restart_count, 1);
    assert_eq!(info.state, ProcessState::Running);
    assert_eq!(info.started_at, Some(at(3)));

    assert_eq!(
        manager.observe_poll_at("c", exited, at(4)),
        RestartDecision::Restart { delay_ms: 100, attempt: 2 }
    );
    let info = manager.record_restart("c", 102).unwrap();
    assert_eq!(info.restart_count, 2);
    assert_eq!(manager.get("c").unwrap().restart_count, 2);

    assert_eq!(
        manager.observe_poll_at("c", exited, at(6)),
        RestartDecision::LimitExceeded { limit: 2 }
    );
    match manager.record_restart_at("c", 103, at(7)) {
        Err(SentinelError::RestartLimitExceeded { name, limit }) => {
            assert_eq!(name, "c");
            assert_eq!(limit, 2);
        },
        other => panic!("unexpected result: {:?}", other),
    }
    let info = manager.get("c").unwrap();
    assert_eq!(info.state, ProcessState::Crashed { exit_code: 1 });
    assert_eq!(info.restart_count, 2);
    assert_eq!(info.pid, None);
    assert!(manager.health_targets().is_empty());

    // A start at the caller's request begins a new count.
    let plan = manager.begin_restart("c").unwrap();
    let info = manager.record_started_at(plan.config, 104, at(8)).unwrap();
    assert_eq!(info.restart_count, 0);
}

#[test]
fn manager_does_not_record_a_restart_of_a_running_process() {
    let mut manager = ProcessManager::new();
    let config = ProcessConfig { auto_restart: true, ..managed("c", "sleep 9") };
    manager.record_started_at(config, 100, at(1)).unwrap();
    match manager.record_restart_at("c", 101, at(2)) {
        Err(SentinelError::ProcessAlreadyRunning { name, pid }) => {
            assert_eq!(name, "c");
            assert_eq!(pid, 100);
        },
        other => panic!("unexpected result: {:?}", other),
    }
    assert_eq!(manager.get("c").unwrap().pid, Some(100));
    assert_eq!(manager.get("c").unwrap().restart_count, 0);
}

#[test]
fn restart_limit_of_zero_means_no_limit() {
    let mut manager = ProcessManager::new();
    let config =
        ProcessConfig { auto_restart: true, restart_limit: 0, restart_delay: 0, ..managed("c", "sh") };
    manager.record_started_at(config.clone(), 1, at(1)).unwrap();
    for round in 0..40u32 {
        let decision =
            manager.observe_poll_at("c", PollOutcome::Exited { exit_code: Some(1) }, at(2));
        assert_eq!(decision, RestartDecision::Restart { delay_ms: 0, attempt: round + 1 });
        let info = manager.record_restart_at("c", 2 + round, at(3)).unwrap();
        assert_eq!(info.restart_count, round + 1);
    }
    assert_eq!(
        decide_restart(&config, u32::MAX),
        RestartDecision::Restart { delay_ms: 0, attempt: u32::MAX }
    );
    assert_eq!(
        decide_restart(&ProcessConfig { restart_limit: 3, ..config.clone() }, 3),
        RestartDecision::LimitExceeded { limit: 3 }
    );
    assert_eq!(
        decide_restart(&ProcessConfig { auto_restart: false, ..config }, 0),
        RestartDecision::NoRestart
    );
    assert_eq!(
        restart_limit_exceeded("api", 5).to_string(),
        "Process 'api' exceeded restart limit of 5 attempts"
    );
}

#[test]
fn backoff_doubles_with_every_restart_and_saturates() {
    assert_eq!(compute_backoff(1000, 0), 1000);
    assert_eq!(compute_backoff(1000, 1), 2000);
    assert_eq!(compute_backoff(1000, 2), 4000);
    assert_eq!(compute_backoff(1000, 3), 8000);
    assert_eq!(compute_backoff(50, 10), 51_200);
    for count in [0u32, 1, 5, 63, 64, 1000, u32::MAX] {
        assert_eq!(compute_backoff(0, count), 0);
    }
    assert_eq!(compute_backoff(1, 63), 1u64 << 63);
    assert_eq!(compute_backoff(1, 64), u64::MAX);
    assert_eq!(compute_backoff(3, 62), 3u64 << 62);
    assert_eq!(compute_backoff(3, 63), u64::MAX);
    assert_eq!(compute_backoff(u64::MAX, 0), u64::MAX);
    assert_eq!(compute_backoff(u64::MAX, 1), u64::MAX);
    assert_eq!(compute_backoff(1000, u32::MAX), u64::MAX);
    assert_eq!(compute_backoff(1u64 << 63, 1), u64::MAX);
}

#[test]
fn manager_refuses_a_configuration_without_a_name() {
    let mut manager = ProcessManager::new();
    let config = ProcessConfig { args: vec!["hi".to_string()], ..managed("", "echo") };

    match manager.plan_start(&config) {
        Err(SentinelError::InvalidConfig { reason }) => {
            assert_eq!(reason, "Process name cannot be empty")
        },
        other => panic!("unexpected result: {:?}", other),
    }
    match manager.record_started_at(config.clone(), 1, at(1)) {
        Err(SentinelError::InvalidConfig { reason }) => {
            assert_eq!(reason, "Process name cannot be empty")
        },
        other => panic!("unexpected result: {:?}", other),
    }
    assert!(matches!(manager.record_started(config.clone(), 1), Err(SentinelError::InvalidConfig { .. })));
    assert!(matches!(plan_launch(&config), Err(SentinelError::InvalidConfig { .. })));
    assert!(manager.list().is_empty());
    assert!(manager.get("").is_none());
    assert!(!manager.is_running(""));

    // The name is looked at before the command: with both missing, the name is reported.
    match manager.plan_start(&managed("", "   ")) {
        Err(SentinelError::InvalidConfig { reason }) => {
            assert_eq!(reason, "Process name cannot be empty")
        },
        other => panic!("unexpected result: {:?}", other),
    }
    // Something else that runs does not change this.
    manager.record_started_at(managed("other", "sleep 1"), 2, at(1)).unwrap();
    assert!(matches!(manager.plan_start(&config), Err(SentinelError::InvalidConfig { .. })));
    assert_eq!(manager.list().len(), 1);
}

#[test]
fn manager_start_stop_start_keeps_one_entry_and_records_the_new_pid() {
    let mut manager = ProcessManager::new();
    let first = manager.record_started_at(managed("p", "sleep 1"), 500, at(1)).unwrap();
    manager.begin_stop("p").unwrap();
    manager.finish_stop_at("p", at(2)).unwrap();
    let second = manager.record_started_at(managed("p", "sleep 1"), 501, at(3)).unwrap();
    assert_eq!(first.pid, Some(500));
    assert_eq!(second.pid, Some(501));
    assert_ne!(first.pid, second.pid);
    assert!(manager.is_running("p"));
    let list = manager.list();
    assert_eq!(list.len(), 1);
    assert_eq!(list[0].name, "p");
    assert_eq!(list[0].pid, Some(501));
}
