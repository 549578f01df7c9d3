use sentinel::error::SentinelError;

#[test]
fn test_process_not_found_error() {
    let err = SentinelError::ProcessNotFound { name: "test-process".to_string() };
    assert_eq!(err.to_string(), "Process 'test-process' not found");
}

#[test]
fn test_invalid_config_error() {
    let err = SentinelError::InvalidConfig { reason: "duplicate process names".to_string() };
    assert_eq!(err.to_string(), "Invalid configuration: duplicate process names");
}

#[test]
fn test_dependency_cycle_error() {
    let err = SentinelError::DependencyCycle {
        deps: vec!["A".to_string(), "B".to_string(), "A".to_string()],
    };
    assert_eq!(err.to_string(), "Dependency cycle detected: A -> B -> A");
}

#[test]
fn test_restart_limit_exceeded() {
    let err = SentinelError::RestartLimitExceeded { name: "api".to_string(), limit: 5 };
    assert_eq!(err.to_string(), "Process 'api' exceeded restart limit of 5 attempts");
}

#[test]
fn error_messages_of_every_variant() {
    assert_eq!(
        SentinelError::SpawnFailed { name: "db".to_string(), source: "No such file".to_string() }
            .to_string(),
        "Failed to spawn process 'db': No such file"
    );
    assert_eq!(
        SentinelError::ProcessAlreadyRunning { name: "api".to_string(), pid: 4242 }.to_string(),
        "Process 'api' is already running with PID 4242"
    );
    assert_eq!(
        SentinelError::ProcessAlreadyRunning { name: "api".to_string(), pid: 0 }.to_string(),
        "Process 'api' is already running with PID 0"
    );
    assert_eq!(
        SentinelError::StopTimeout { name: "api".to_string(), timeout_secs: 10 }.to_string(),
        "Process 'api' failed to stop within 10 seconds"
    );
    assert_eq!(
        SentinelError::ConfigNotFound { path: "/tmp/s.yaml".to_string() }.to_string(),
        "Configuration file not found: /tmp/s.yaml"
    );
    assert_eq!(
        SentinelError::ConfigParseFailed { path: "s.yaml".to_string(), source: "bad".to_string() }
            .to_string(),
        "Failed to parse config file s.yaml: bad"
    );
    assert_eq!(
        SentinelError::FileIoError { path: "s.yaml".to_string(), source: "denied".to_string() }
            .to_string(),
        "File I/O error for s.yaml: denied"
    );
    assert_eq!(
        SentinelError::MonitoringError { message: "no cpu".to_string() }.to_string(),
        "System monitoring error: no cpu"
    );
    assert_eq!(
        SentinelError::UnknownDependency { process: "a".to_string(), dependency: "b".to_string() }
            .to_string(),
        "Process 'a' depends on unknown process 'b'"
    );
    assert_eq!(SentinelError::Io("broken pipe".to_string()).to_string(), "I/O error: broken pipe");
    assert_eq!(
        SentinelError::PortDiscoveryError("lsof missing".to_string()).to_string(),
        "Port scanning failed: lsof missing"
    );
    assert_eq!(SentinelError::PortNotFound(65535).to_string(), "Port 65535 not found");
    assert_eq!(SentinelError::DockerError("down".to_string()).to_string(), "Docker error: down");
    assert_eq!(SentinelError::Other("plain".to_string()).to_string(), "plain");
    assert_eq!(
        SentinelError::DependencyCycle { deps: vec![] }.to_string(),
        "Dependency cycle detected: "
    );
    assert_eq!(
        SentinelError::DependencyCycle { deps: vec!["only".to_string()] }.to_string(),
        "Dependency cycle detected: only"
    );
    assert_eq!(
        SentinelError::StopTimeout { name: "x".to_string(), timeout_secs: u64::MAX }.to_string(),
        "Process 'x' failed to stop within 18446744073709551615 seconds"
    );
}

#[test]
fn error_kinds_are_the_ten_stable_ones() {
    let name = || "n".to_string();
    assert_eq!(SentinelError::ProcessNotFound { name: name() }.kind(), "ProcessNotFound");
    assert_eq!(SentinelError::ProcessAlreadyRunning { name: name(), pid: 1 }.kind(), "AlreadyRunning");
    assert_eq!(SentinelError::SpawnFailed { name: name(), source: name() }.kind(), "SpawnFailed");
    assert_eq!(SentinelError::StopTimeout { name: name(), timeout_secs: 1 }.kind(), "StopTimeout");
    assert_eq!(SentinelError::InvalidConfig { reason: name() }.kind(), "InvalidConfig");
    assert_eq!(SentinelError::ConfigNotFound { path: name() }.kind(), "InvalidConfig");
    assert_eq!(SentinelError::ConfigParseFailed { path: name(), source: name() }.kind(), "InvalidConfig");
    assert_eq!(SentinelError::DependencyCycle { deps: vec![] }.kind(), "DependencyCycle");
    assert_eq!(
        SentinelError::UnknownDependency { process: name(), dependency: name() }.kind(),
        "UnknownDependency"
    );
    assert_eq!(SentinelError::RestartLimitExceeded { name: name(), limit: 1 }.kind(), "RestartLimitExceeded");
    assert_eq!(SentinelError::FileIoError { path: name(), source: name() }.kind(), "Io");
    assert_eq!(SentinelError::Io(name()).kind(), "Io");
    assert_eq!(SentinelError::MonitoringError { message: name() }.kind(), "Other");
    assert_eq!(SentinelError::PortDiscoveryError(name()).kind(), "Other");
    assert_eq!(SentinelError::PortNotFound(1).kind(), "Other");
    assert_eq!(SentinelError::DockerError(name()).kind(), "Other");
    assert_eq!(SentinelError::Other(name()).kind(), "Other");
}
