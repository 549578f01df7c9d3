//! The error type shared by every operation of the library.

use crate::text::{decimal_of_nat, push_decimal, push_text};
use vstd::prelude::*;

verus! {

/// Everything that an operation of the supervisor can report as a failure.
///
/// Causes that come from the operating system or from a parser are carried as
/// text, and paths as they are displayed.
#[derive(Debug)]
pub enum SentinelError {
    /// Process with the specified name was not found.
    ProcessNotFound { name: String },
    /// Failed to spawn a new process.
    SpawnFailed { name: String, source: String },
    /// Process is already running.
    ProcessAlreadyRunning { name: String, pid: u32 },
    /// Process failed to stop within the timeout period.
    StopTimeout { name: String, timeout_secs: u64 },
    /// Invalid configuration provided.
    InvalidConfig { reason: String },
    /// Configuration file not found.
    ConfigNotFound { path: String },
    /// Failed to parse configuration file.
    ConfigParseFailed { path: String, source: String },
    /// Failed to read or write a file.
    FileIoError { path: String, source: String },
    /// System monitoring error.
    MonitoringError { message: String },
    /// Dependency cycle detected in process configuration.
    DependencyCycle { deps: Vec<String> },
    /// Unknown dependency referenced.
    UnknownDependency { process: String, dependency: String },
    /// Maximum restart limit exceeded.
    RestartLimitExceeded { name: String, limit: u32 },
    /// Generic I/O error.
    Io(String),
    /// Port discovery error.
    PortDiscoveryError(String),
    /// Port not found.
    PortNotFound(u16),
    /// Docker error.
    DockerError(String),
    /// Generic error with custom message.
    Other(String),
}

/// The names in `deps` from index `from` on, each but the first of them
/// preceded by `" -> "`.
pub open spec fn joined_from(deps: Seq<Seq<char>>, from: int) -> Seq<char>
    decreases deps.len() - from,
{
    if from < 0 || from >= deps.len() {
        Seq::<char>::empty()
    } else if from == 0 {
        deps[0] + joined_from(deps, 1)
    } else {
        " -> "@ + deps[from] + joined_from(deps, from + 1)
    }
}

/// The names of `deps` joined by `" -> "`.
pub open spec fn joined(deps: Seq<Seq<char>>) -> Seq<char> {
    joined_from(deps, 0)
}

/// What an error holds, as plain values.
pub enum SentinelErrorView {
    ProcessNotFound { name: Seq<char> },
    SpawnFailed { name: Seq<char>, source: Seq<char> },
    ProcessAlreadyRunning { name: Seq<char>, pid: u32 },
    StopTimeout { name: Seq<char>, timeout_secs: u64 },
    InvalidConfig { reason: Seq<char> },
    ConfigNotFound { path: Seq<char> },
    ConfigParseFailed { path: Seq<char>, source: Seq<char> },
    FileIoError { path: Seq<char>, source: Seq<char> },
    MonitoringError { message: Seq<char> },
    DependencyCycle { deps: Seq<Seq<char>> },
    UnknownDependency { process: Seq<char>, dependency: Seq<char> },
    RestartLimitExceeded { name: Seq<char>, limit: u32 },
    Io(Seq<char>),
    PortDiscoveryError(Seq<char>),
    PortNotFound(u16),
    DockerError(Seq<char>),
    Other(Seq<char>),
}

impl View for SentinelError {
    type V = SentinelErrorView;

    open spec fn view(&self) -> SentinelErrorView {
        match *self {
            SentinelError::ProcessNotFound { name } => SentinelErrorView::ProcessNotFound {
                name: name@,
            },
            SentinelError::SpawnFailed { name, source } => SentinelErrorView::SpawnFailed {
                name: name@,
                source: source@,
            },
            SentinelError::ProcessAlreadyRunning { name, pid } => {
                SentinelErrorView::ProcessAlreadyRunning { name: name@, pid }
            },
            SentinelError::StopTimeout { name, timeout_secs } => SentinelErrorView::StopTimeout {
                name: name@,
                timeout_secs,
            },
            SentinelError::InvalidConfig { reason } => SentinelErrorView::InvalidConfig {
                reason: reason@,
            },
            SentinelError::ConfigNotFound { path } => SentinelErrorView::ConfigNotFound {
                path: path@,
            },
            SentinelError::ConfigParseFailed { path, source } => {
                SentinelErrorView::ConfigParseFailed { path: path@, source: source@ }
            },
            SentinelError::FileIoError { path, source } => SentinelErrorView::FileIoError {
                path: path@,
                source: source@,
            },
            SentinelError::MonitoringError { message } => SentinelErrorView::MonitoringError {
                message: message@,
            },
            SentinelError::DependencyCycle { deps } => SentinelErrorView::DependencyCycle {
                deps: deps.deep_view(),
            },
            SentinelError::UnknownDependency { process, dependency } => {
                SentinelErrorView::UnknownDependency { process: process@, dependency: dependency@ }
            },
            SentinelError::RestartLimitExceeded { name, limit } => {
                SentinelErrorView::RestartLimitExceeded { name: name@, limit }
            },
            SentinelError::Io(cause) => SentinelErrorView::Io(cause@),
            SentinelError::PortDiscoveryError(cause) => SentinelErrorView::PortDiscoveryError(cause@),
            SentinelError::PortNotFound(port) => SentinelErrorView::PortNotFound(port),
            SentinelError::DockerError(cause) => SentinelErrorView::DockerError(cause@),
            SentinelError::Other(text) => SentinelErrorView::Other(text@),
        }
    }
}

impl SentinelErrorView {
    /// The human-readable message of the error.
    pub open spec fn message(self) -> Seq<char> {
        match self {
            SentinelErrorView::ProcessNotFound { name } => "Process '"@ + name + "' not found"@,
            SentinelErrorView::SpawnFailed { name, source } => "Failed to spawn process '"@ + name
                + "': "@ + source,
            SentinelErrorView::ProcessAlreadyRunning { name, pid } => "Process '"@ + name
                + "' is already running with PID "@ + decimal_of_nat(pid as nat),
            SentinelErrorView::StopTimeout { name, timeout_secs } => "Process '"@ + name
                + "' failed to stop within "@ + decimal_of_nat(timeout_secs as nat) + " seconds"@,
            SentinelErrorView::InvalidConfig { reason } => "Invalid configuration: "@ + reason,
            SentinelErrorView::ConfigNotFound { path } => "Configuration file not found: "@ + path,
            SentinelErrorView::ConfigParseFailed { path, source } => "Failed to parse config file "@
                + path + ": "@ + source,
            SentinelErrorView::FileIoError { path, source } => "File I/O error for "@ + path + ": "@
                + source,
            SentinelErrorView::MonitoringError { message } => "System monitoring error: "@ + message,
            SentinelErrorView::DependencyCycle { deps } => "Dependency cycle detected: "@ + joined(
                deps,
            ),
            SentinelErrorView::UnknownDependency { process, dependency } => "Process '"@ + process
                + "' depends on unknown process '"@ + dependency + "'"@,
            SentinelErrorView::RestartLimitExceeded { name, limit } => "Process '"@ + name
                + "' exceeded restart limit of "@ + decimal_of_nat(limit as nat) + " attempts"@,
            SentinelErrorView::Io(cause) => "I/O error: "@ + cause,
            SentinelErrorView::PortDiscoveryError(cause) => "Port scanning failed: "@ + cause,
            SentinelErrorView::PortNotFound(port) => "Port "@ + decimal_of_nat(port as nat)
                + " not found"@,
            SentinelErrorView::DockerError(cause) => "Docker error: "@ + cause,
            SentinelErrorView::Other(text) => text,
        }
    }
}

impl SentinelErrorView {
    /// The stable kind of the error, by which a caller tells errors apart.
    ///
    /// There are ten kinds. A missing or unreadable configuration file counts
    /// as `InvalidConfig`, a failed file operation as `Io`, and a failure of
    /// a collaborator (monitoring, port discovery, Docker) as `Other`.
    pub open spec fn kind(self) -> Seq<char> {
        match self {
            SentinelErrorView::ProcessNotFound { .. } => "ProcessNotFound"@,
            SentinelErrorView::ProcessAlreadyRunning { .. } => "AlreadyRunning"@,
            SentinelErrorView::SpawnFailed { .. } => "SpawnFailed"@,
            SentinelErrorView::StopTimeout { .. } => "StopTimeout"@,
            SentinelErrorView::InvalidConfig { .. } => "InvalidConfig"@,
            SentinelErrorView::ConfigNotFound { .. } => "InvalidConfig"@,
            SentinelErrorView::ConfigParseFailed { .. } => "InvalidConfig"@,
            SentinelErrorView::DependencyCycle { .. } => "DependencyCycle"@,
            SentinelErrorView::UnknownDependency { .. } => "UnknownDependency"@,
            SentinelErrorView::RestartLimitExceeded { .. } => "RestartLimitExceeded"@,
            SentinelErrorView::FileIoError { .. } => "Io"@,
            SentinelErrorView::Io(_) => "Io"@,
            SentinelErrorView::MonitoringError { .. } => "Other"@,
            SentinelErrorView::PortDiscoveryError(_) => "Other"@,
            SentinelErrorView::PortNotFound(_) => "Other"@,
            SentinelErrorView::DockerError(_) => "Other"@,
            SentinelErrorView::Other(_) => "Other"@,
        }
    }
}

impl SentinelError {
    /// The human-readable message of this error.
    pub open spec fn message(self) -> Seq<char> {
        self@.message()
    }

    /// The stable kind of this error.
    pub fn kind(&self) -> (kind: String)
        ensures
            kind@ == self@.kind(),
    {
        match self {
            SentinelError::ProcessNotFound { .. } => "ProcessNotFound".to_owned(),
            SentinelError::ProcessAlreadyRunning { .. } => "AlreadyRunning".to_owned(),
            SentinelError::SpawnFailed { .. } => "SpawnFailed".to_owned(),
            SentinelError::StopTimeout { .. } => "StopTimeout".to_owned(),
            SentinelError::InvalidConfig { .. } => "InvalidConfig".to_owned(),
            SentinelError::ConfigNotFound { .. } => "InvalidConfig".to_owned(),
            SentinelError::ConfigParseFailed { .. } => "InvalidConfig".to_owned(),
            SentinelError::DependencyCycle { .. } => "DependencyCycle".to_owned(),
            SentinelError::UnknownDependency { .. } => "UnknownDependency".to_owned(),
            SentinelError::RestartLimitExceeded { .. } => "RestartLimitExceeded".to_owned(),
            SentinelError::FileIoError { .. } => "Io".to_owned(),
            SentinelError::Io(_) => "Io".to_owned(),
            SentinelError::MonitoringError { .. } => "Other".to_owned(),
            SentinelError::PortDiscoveryError(_) => "Other".to_owned(),
            SentinelError::PortNotFound(_) => "Other".to_owned(),
            SentinelError::DockerError(_) => "Other".to_owned(),
            SentinelError::Other(_) => "Other".to_owned(),
        }
    }

    /// Renders the message of this error.
    pub fn to_string(&self) -> (text: String)
        ensures
            text@ == self.message(),
    {
        let mut out = String::new();
        match self {
            SentinelError::ProcessNotFound { name } => {
                push_text(&mut out, "Process '");
                push_text(&mut out, name.as_str());
                push_text(&mut out, "' not found");
            },
            SentinelError::SpawnFailed { name, source } => {
                push_text(&mut out, "Failed to spawn process '");
                push_text(&mut out, name.as_str());
                push_text(&mut out, "': ");
                push_text(&mut out, source.as_str());
            },
            SentinelError::ProcessAlreadyRunning { name, pid } => {
                push_text(&mut out, "Process '");
                push_text(&mut out, name.as_str());
                push_text(&mut out, "' is already running with PID ");
                push_decimal(&mut out, *pid as u64);
            },
            SentinelError::StopTimeout { name, timeout_secs } => {
                push_text(&mut out, "Process '");
                push_text(&mut out, name.as_str());
                push_text(&mut out, "' failed to stop within ");
                push_decimal(&mut out, *timeout_secs);
                push_text(&mut out, " seconds");
            },
            SentinelError::InvalidConfig { reason } => {
                push_text(&mut out, "Invalid configuration: ");
                push_text(&mut out, reason.as_str());
            },
            SentinelError::ConfigNotFound { path } => {
                push_text(&mut out, "Configuration file not found: ");
                push_text(&mut out, path.as_str());
            },
            SentinelError::ConfigParseFailed { path, source } => {
                push_text(&mut out, "Failed to parse config file ");
                push_text(&mut out, path.as_str());
                push_text(&mut out, ": ");
                push_text(&mut out, source.as_str());
            },
            SentinelError::FileIoError { path, source } => {
                push_text(&mut out, "File I/O error for ");
                push_text(&mut out, path.as_str());
                push_text(&mut out, ": ");
                push_text(&mut out, source.as_str());
            },
            SentinelError::MonitoringError { message } => {
                push_text(&mut out, "System monitoring error: ");
                push_text(&mut out, message.as_str());
            },
            SentinelError::DependencyCycle { deps } => {
                push_text(&mut out, "Dependency cycle detected: ");
                let ghost base = out@;
                let mut i: usize = 0;
                while i < deps.len()
                    invariant
                        i <= deps.len(),
                        out@ + joined_from(deps.deep_view(), i as int) == base + joined(
                            deps.deep_view(),
                        ),
                    decreases deps.len() - i,
                {
                    let ghost before = out@;
                    if i > 0 {
                        push_text(&mut out, " -> ");
                    }
                    push_text(&mut out, deps[i].as_str());
                    assert(deps.deep_view()[i as int] == deps[i as int]@);
                    assert(out@ + joined_from(deps.deep_view(), i + 1) =~= before + joined_from(
                        deps.deep_view(),
                        i as int,
                    ));
                    i = i + 1;
                }
                assert(out@ =~= base + joined(deps.deep_view()));
            },
            SentinelError::UnknownDependency { process, dependency } => {
                push_text(&mut out, "Process '");
                push_text(&mut out, process.as_str());
                push_text(&mut out, "' depends on unknown process '");
                push_text(&mut out, dependency.as_str());
                push_text(&mut out, "'");
            },
            SentinelError::RestartLimitExceeded { name, limit } => {
                push_text(&mut out, "Process '");
                push_text(&mut out, name.as_str());
                push_text(&mut out, "' exceeded restart limit of ");
                push_decimal(&mut out, *limit as u64);
                push_text(&mut out, " attempts");
            },
            SentinelError::Io(cause) => {
                push_text(&mut out, "I/O error: ");
                push_text(&mut out, cause.as_str());
            },
            SentinelError::PortDiscoveryError(cause) => {
                push_text(&mut out, "Port scanning failed: ");
                push_text(&mut out, cause.as_str());
            },
            SentinelError::PortNotFound(port) => {
                push_text(&mut out, "Port ");
                push_decimal(&mut out, *port as u64);
                push_text(&mut out, " not found");
            },
            SentinelError::DockerError(cause) => {
                push_text(&mut out, "Docker error: ");
                push_text(&mut out, cause.as_str());
            },
            SentinelError::Other(text) => {
                push_text(&mut out, text.as_str());
            },
        }
        assert(out@ =~= self.message());
        out
    }
}

/// Specialized result type for the library's operations.
pub type Result<T> = std::result::Result<T, SentinelError>;

} // verus!
