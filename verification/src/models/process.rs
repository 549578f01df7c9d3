//! Process-related data models.

use crate::clock::Timestamp;
use vstd::prelude::*;

verus! {

/// Represents the state of a managed process.
#[derive(Debug, PartialEq, Eq)]
pub enum ProcessState {
    /// Process is not running.
    Stopped,
    /// Process is starting up.
    Starting,
    /// Process is running normally.
    Running,
    /// Process is being stopped.
    Stopping,
    /// Process crashed with an exit code.
    Crashed { exit_code: i32 },
    /// Process failed to start.
    Failed { reason: String },
}

/// What a process state holds, as plain values.
pub enum ProcessStateView {
    Stopped,
    Starting,
    Running,
    Stopping,
    Crashed { exit_code: i32 },
    Failed { reason: Seq<char> },
}

impl View for ProcessState {
    type V = ProcessStateView;

    open spec fn view(&self) -> ProcessStateView {
        match *self {
            ProcessState::Stopped => ProcessStateView::Stopped,
            ProcessState::Starting => ProcessStateView::Starting,
            ProcessState::Running => ProcessStateView::Running,
            ProcessState::Stopping => ProcessStateView::Stopping,
            ProcessState::Crashed { exit_code } => ProcessStateView::Crashed { exit_code },
            ProcessState::Failed { reason } => ProcessStateView::Failed { reason: reason@ },
        }
    }
}

impl Clone for ProcessState {
    fn clone(&self) -> (copy: Self)
        ensures
            copy == *self,
    {
        match self {
            ProcessState::Stopped => ProcessState::Stopped,
            ProcessState::Starting => ProcessState::Starting,
            ProcessState::Running => ProcessState::Running,
            ProcessState::Stopping => ProcessState::Stopping,
            ProcessState::Crashed { exit_code } => ProcessState::Crashed { exit_code: *exit_code },
            ProcessState::Failed { reason } => ProcessState::Failed { reason: reason.clone() },
        }
    }
}

/// Information about a managed process.
///
/// The CPU share that a sampler measures for the process is not kept here:
/// the caller joins it in when it presents the record.
#[derive(Debug)]
pub struct ProcessInfo {
    /// Unique name of the process.
    pub name: String,
    /// Current state of the process.
    pub state: ProcessState,
    /// Process ID (if running).
    pub pid: Option<u32>,
    /// Command that was executed.
    pub command: String,
    /// Working directory.
    pub cwd: Option<String>,
    /// Memory usage in bytes.
    pub memory_usage: u64,
    /// Number of restart attempts.
    pub restart_count: u32,
    /// Time when the process was started.
    pub started_at: Option<Timestamp>,
    /// Time when the process was stopped.
    pub stopped_at: Option<Timestamp>,
}

/// What a process record holds, as plain values.
pub struct ProcessInfoView {
    pub name: Seq<char>,
    pub state: ProcessStateView,
    pub pid: Option<u32>,
    pub command: Seq<char>,
    pub cwd: Option<Seq<char>>,
    pub memory_usage: u64,
    pub restart_count: u32,
    pub started_at: Option<Timestamp>,
    pub stopped_at: Option<Timestamp>,
}

impl View for ProcessInfo {
    type V = ProcessInfoView;

    open spec fn view(&self) -> ProcessInfoView {
        ProcessInfoView {
            name: self.name@,
            state: self.state@,
            pid: self.pid,
            command: self.command@,
            cwd: self.cwd.deep_view(),
            memory_usage: self.memory_usage,
            restart_count: self.restart_count,
            started_at: self.started_at,
            stopped_at: self.stopped_at,
        }
    }
}

impl ProcessInfoView {
    /// The rule that ties the pid to the state: a process has a pid exactly
    /// while it is running.
    pub open spec fn pid_matches_state(self) -> bool {
        (self.state is Running) <==> (self.pid is Some)
    }
}

impl Clone for ProcessInfo {
    fn clone(&self) -> (copy: Self)
        ensures
            copy == *self,
    {
        ProcessInfo {
            name: self.name.clone(),
            state: self.state.clone(),
            pid: self.pid,
            command: self.command.clone(),
            cwd: self.cwd.clone(),
            memory_usage: self.memory_usage,
            restart_count: self.restart_count,
            started_at: self.started_at,
            stopped_at: self.stopped_at,
        }
    }
}

impl ProcessInfo {
    /// Creates a new ProcessInfo in the Stopped state.
    pub fn new(name: String, command: String) -> (info: Self)
        ensures
            info == (ProcessInfo {
                name,
                state: ProcessState::Stopped,
                pid: None,
                command,
                cwd: None,
                memory_usage: 0,
                restart_count: 0,
                started_at: None,
                stopped_at: None,
            }),
    {
        ProcessInfo {
            name,
            state: ProcessState::Stopped,
            pid: None,
            command,
            cwd: None,
            memory_usage: 0,
            restart_count: 0,
            started_at: None,
            stopped_at: None,
        }
    }

    /// Checks if the process is currently running.
    pub fn is_running(&self) -> (r: bool)
        ensures
            r == (self.state is Running),
            r == (self@.state is Running),
    {
        matches!(self.state, ProcessState::Running)
    }

    /// Checks if the process is stopped.
    pub fn is_stopped(&self) -> (r: bool)
        ensures
            r == (self.state is Stopped),
            r == (self@.state is Stopped),
    {
        matches!(self.state, ProcessState::Stopped)
    }

    /// Checks if the process has crashed.
    pub fn is_crashed(&self) -> (r: bool)
        ensures
            r == (self.state is Crashed),
            r == (self@.state is Crashed),
    {
        matches!(self.state, ProcessState::Crashed { .. })
    }

}

} // verus!
