//! The registry behind the PTY supervisor.
//!
//! Children that need a terminal are spawned by the caller under a
//! pseudo-terminal of a fixed size. The manager keeps which of them run,
//! under which pid, and the configuration of each for a later restart; and it
//! says what the reader of a terminal emits for what it read.

use crate::clock::Timestamp;
use crate::engine::registry::{has_key, put, taken, value_of, Registry};
use crate::error::{Result, SentinelError, SentinelErrorView};
use crate::models::config::{clone_env, clone_strings};
use crate::text::{lossy_text, lossy_text_of};
use vstd::prelude::*;

verus! {

/// The number of rows of the terminal that a child gets.
pub const PTY_ROWS: u16 = 24;

/// The number of columns of the terminal that a child gets.
pub const PTY_COLS: u16 = 80;

/// The pause, in milliseconds, between the kill and the spawn of a restart.
pub const RESTART_SETTLE_MS: u64 = 100;

/// The size of a terminal.
#[derive(Debug, Clone, Copy, PartialEq, Eq, Structural)]
pub struct TerminalSize {
    pub rows: u16,
    pub cols: u16,
    pub pixel_width: u16,
    pub pixel_height: u16,
}

/// The size of the terminal that every child gets: 24 rows of 80 columns.
pub fn initial_terminal_size() -> (size: TerminalSize)
    ensures
        size == (TerminalSize { rows: PTY_ROWS, cols: PTY_COLS, pixel_width: 0, pixel_height: 0 }),
{
    TerminalSize { rows: PTY_ROWS, cols: PTY_COLS, pixel_width: 0, pixel_height: 0 }
}

/// Process configuration for persistence
#[derive(Debug)]
pub struct ProcessConfig {
    pub process_id: String,
    pub command: String,
    pub args: Vec<String>,
    pub cwd: Option<String>,
    pub env: Option<Vec<(String, String)>>,
}

/// What the configuration of a terminal process holds, as plain values.
pub struct ProcessConfigView {
    pub process_id: Seq<char>,
    pub command: Seq<char>,
    pub args: Seq<Seq<char>>,
    pub cwd: Option<Seq<char>>,
    pub env: Option<Seq<(Seq<char>, Seq<char>)>>,
}

impl View for ProcessConfig {
    type V = ProcessConfigView;

    open spec fn view(&self) -> ProcessConfigView {
        ProcessConfigView {
            process_id: self.process_id@,
            command: self.command@,
            args: self.args.deep_view(),
            cwd: self.cwd.deep_view(),
            env: self.env.deep_view(),
        }
    }
}

impl Clone for ProcessConfig {
    fn clone(&self) -> (copy: Self)
        ensures
            copy@ == self@,
    {
        let env = match &self.env {
            Some(vars) => Some(clone_env(vars)),
            None => None,
        };
        ProcessConfig {
            process_id: self.process_id.clone(),
            command: self.command.clone(),
            args: clone_strings(&self.args),
            cwd: self.cwd.clone(),
            env,
        }
    }
}

/// A running terminal process: its id and its pid.
#[derive(Debug)]
pub struct ProcessInfo {
    pub process_id: String,
    pub pid: u32,
}

/// Event emitted when process produces output
#[derive(Debug)]
pub struct ProcessOutputEvent {
    pub process_id: String,
    pub output: String,
    /// Always `"stdout"`: a terminal has one stream.
    pub stream: String,
    pub timestamp: Timestamp,
}

/// Event emitted when process exits
#[derive(Debug)]
pub struct ProcessExitEvent {
    pub process_id: String,
    pub exit_code: Option<i32>,
    pub timestamp: Timestamp,
}

/// What the reader of a terminal does about what it read.
#[derive(Debug)]
pub enum ReaderStep {
    /// Emit the output event and read on.
    Output(ProcessOutputEvent),
    /// Emit the exit event and stop reading.
    Exit(ProcessExitEvent),
    /// Stop reading without an event.
    Stop,
}

/// What the reader of the terminal of `process_id` does at the time `now`
/// about what it read: `None` for a read that failed, no bytes for the end
/// of the stream, else the bytes that were read.
///
/// The end of the stream gives the exit event, without an exit code. Bytes
/// give an output event with their text, escape sequences untouched. A read
/// that failed stops the reader.
pub fn read_step_at(process_id: &str, read: Option<&[u8]>, now: Timestamp) -> (step: ReaderStep)
    ensures
        match read {
            None => step is Stop,
            Some(bytes) => if bytes@.len() == 0 {
                &&& step matches ReaderStep::Exit(event)
                &&& event.process_id@ == process_id@
                &&& event.exit_code is None
                &&& event.timestamp == now
            } else {
                &&& step matches ReaderStep::Output(event)
                &&& event.process_id@ == process_id@
                &&& event.output@ == lossy_text_of(bytes@)
                &&& event.stream@ == "stdout"@
                &&& event.timestamp == now
            },
        },
{
    match read {
        None => ReaderStep::Stop,
        Some(bytes) => {
            if bytes.len() == 0 {
                ReaderStep::Exit(
                    ProcessExitEvent { process_id: process_id.to_owned(), exit_code: None, timestamp: now },
                )
            } else {
                ReaderStep::Output(
                    ProcessOutputEvent {
                        process_id: process_id.to_owned(),
                        output: lossy_text(bytes),
                        stream: "stdout".to_owned(),
                        timestamp: now,
                    },
                )
            }
        },
    }
}

/// What the reader of the terminal of `process_id` does just now about what
/// it read. See `read_step_at`.
pub fn read_step(process_id: &str, read: Option<&[u8]>) -> (step: ReaderStep)
    ensures
        match read {
            None => step is Stop,
            Some(bytes) => if bytes@.len() == 0 {
                &&& step matches ReaderStep::Exit(event)
                &&& event.process_id@ == process_id@
                &&& event.exit_code is None
            } else {
                &&& step matches ReaderStep::Output(event)
                &&& event.process_id@ == process_id@
                &&& event.output@ == lossy_text_of(bytes@)
                &&& event.stream@ == "stdout"@
            },
        },
{
    read_step_at(process_id, read, Timestamp::now())
}

/// What a restart takes: kill the child with the pid `kill`, if there is one,
/// wait `settle_ms` milliseconds, and spawn from `config`.
#[derive(Debug)]
pub struct RestartPlan {
    pub config: ProcessConfig,
    pub kill: Option<u32>,
    pub settle_ms: u64,
}

/// The error that reports that no process with the given id is known.
pub open spec fn unknown_process(process_id: Seq<char>) -> SentinelErrorView {
    SentinelErrorView::ProcessNotFound { name: process_id }
}

/// Manages PTY-based process spawning and lifecycle
pub struct PtyProcessManager {
    /// The pid of each running process, by process id.
    processes: Registry<u32>,
    /// The configuration of each process, by process id, kept for restart.
    configs: Registry<ProcessConfig>,
}

impl PtyProcessManager {
    /// The manager's invariant: no process id stands twice, neither among
    /// the running processes nor among the configurations.
    pub closed spec fn wf(self) -> bool {
        self.processes.wf() && self.configs.wf()
    }

    /// The running processes: each process id with its pid.
    pub closed spec fn running(self) -> Seq<(Seq<char>, u32)> {
        self.processes@
    }

    /// The stored configurations, each under its process id.
    pub closed spec fn saved(self) -> Seq<(Seq<char>, ProcessConfig)> {
        self.configs@
    }

    /// In a well-formed manager process ids are unique.
    pub proof fn lemma_unique_ids(self)
        requires
            self.wf(),
        ensures
            crate::engine::registry::unique_keys(self.running()),
            crate::engine::registry::unique_keys(self.saved()),
    {
        self.processes.lemma_unique();
        self.configs.lemma_unique();
    }

    /// A manager that knows no process.
    pub fn new() -> (manager: Self)
        ensures
            manager.wf(),
            manager.running() == Seq::<(Seq<char>, u32)>::empty(),
            manager.saved() == Seq::<(Seq<char>, ProcessConfig)>::empty(),
    {
        PtyProcessManager { processes: Registry::new(), configs: Registry::new() }
    }

    fn not_found(process_id: &str) -> (e: SentinelError)
        ensures
            e@ == unknown_process(process_id@),
    {
        SentinelError::ProcessNotFound { name: process_id.to_owned() }
    }

    /// Records that the process of `config` was spawned under `pid`.
    ///
    /// The configuration is stored for a later restart and the process
    /// counts as running, each in the place of what was there under the same
    /// process id. Returns the pid.
    pub fn record_spawn(&mut self, config: ProcessConfig, pid: u32) -> (spawned: u32)
        requires
            old(self).wf(),
        ensures
            final(self).wf(),
            spawned == pid,
            final(self).running() == put(old(self).running(), config.process_id@, pid),
            final(self).saved() == put(old(self).saved(), config.process_id@, config),
    {
        let _ = self.processes.insert(config.process_id.clone(), pid);
        let _ = self.configs.insert(config.process_id.clone(), config);
        pid
    }

    /// Takes a process off the list of running processes and returns its
    /// pid, for the caller to signal. Fails with `ProcessNotFound` where no
    /// process with that id is running.
    pub fn kill_process(&mut self, process_id: &str) -> (r: Result<u32>)
        requires
            old(self).wf(),
        ensures
            final(self).wf(),
            final(self).saved() == old(self).saved(),
            final(self).running() == taken(old(self).running(), process_id@),
            match r {
                Ok(pid) => has_key(old(self).running(), process_id@) && pid == value_of(
                    old(self).running(),
                    process_id@,
                ),
                Err(e) => !has_key(old(self).running(), process_id@) && e@ == unknown_process(
                    process_id@,
                ),
            },
    {
        match self.processes.remove(process_id) {
            Some(pid) => Ok(pid),
            None => Err(Self::not_found(process_id)),
        }
    }

    /// Get list of running processes managed by this manager
    pub fn list_processes(&self) -> (infos: Vec<ProcessInfo>)
        requires
            self.wf(),
        ensures
            infos@.len() == self.running().len(),
            forall|i: int|
                0 <= i < infos@.len() ==> (#[trigger] infos@[i]).process_id@ == self.running()[i].0
                    && infos@[i].pid == self.running()[i].1,
    {
        let mut out: Vec<ProcessInfo> = Vec::new();
        let mut i: usize = 0;
        let n = self.processes.len();
        while i < n
            invariant
                self.wf(),
                n == self.running().len(),
                i <= n,
                out@.len() == i,
                forall|j: int|
                    0 <= j < i ==> (#[trigger] out@[j]).process_id@ == self.running()[j].0 && out@[j].pid
                        == self.running()[j].1,
            decreases n - i,
        {
            out.push(
                ProcessInfo {
                    process_id: self.processes.key_at(i).clone(),
                    pid: *self.processes.value_at(i),
                },
            );
            i = i + 1;
        }
        out
    }

    /// Check if a process is running
    pub fn is_running(&self, process_id: &str) -> (r: bool)
        requires
            self.wf(),
        ensures
            r == has_key(self.running(), process_id@),
    {
        self.processes.contains_key(process_id)
    }

    /// Plans the restart of a process from its stored configuration.
    ///
    /// Fails with `ProcessNotFound`, and changes nothing, where no
    /// configuration is stored under that id. A process that is running is
    /// taken off the list of running processes; the plan then names its pid,
    /// for the caller to signal, and a pause before the spawn.
    pub fn plan_restart(&mut self, process_id: &str) -> (r: Result<RestartPlan>)
        requires
            old(self).wf(),
        ensures
            final(self).wf(),
            final(self).saved() == old(self).saved(),
            match r {
                Ok(plan) => {
                    &&& has_key(old(self).saved(), process_id@)
                    &&& plan.config@ == value_of(old(self).saved(), process_id@)@
                    &&& final(self).running() == taken(old(self).running(), process_id@)
                    &&& if has_key(old(self).running(), process_id@) {
                        plan.kill == Some(value_of(old(self).running(), process_id@)) && plan.settle_ms
                            == RESTART_SETTLE_MS
                    } else {
                        plan.kill is None && plan.settle_ms == 0
                    }
                },
                Err(e) => {
                    &&& !has_key(old(self).saved(), process_id@)
                    &&& e@ == unknown_process(process_id@)
                    &&& final(self).running() == old(self).running()
                },
            },
    {
        let config = match self.configs.get(process_id) {
            Some(stored) => stored.clone(),
            None => {
                return Err(Self::not_found(process_id));
            },
        };
        match self.processes.remove(process_id) {
            Some(pid) => Ok(RestartPlan { config, kill: Some(pid), settle_ms: RESTART_SETTLE_MS }),
            None => Ok(RestartPlan { config, kill: None, settle_ms: 0 }),
        }
    }

    /// Get all stored process configurations
    pub fn get_all_configs(&self) -> (configs: Vec<ProcessConfig>)
        requires
            self.wf(),
        ensures
            configs@.len() == self.saved().len(),
            forall|i: int| 0 <= i < configs@.len() ==> (#[trigger] configs@[i])@ == self.saved()[i].1@,
    {
        let mut out: Vec<ProcessConfig> = Vec::new();
        let mut i: usize = 0;
        let n = self.configs.len();
        while i < n
            invariant
                self.wf(),
                n == self.saved().len(),
                i <= n,
                out@.len() == i,
                forall|j: int| 0 <= j < i ==> (#[trigger] out@[j])@ == self.saved()[j].1@,
            decreases n - i,
        {
            out.push(self.configs.value_at(i).clone());
            i = i + 1;
        }
        out
    }

    /// Save a process configuration
    pub fn save_config(&mut self, config: ProcessConfig)
        requires
            old(self).wf(),
        ensures
            final(self).wf(),
            final(self).running() == old(self).running(),
            final(self).saved() == put(old(self).saved(), config.process_id@, config),
    {
        let _ = self.configs.insert(config.process_id.clone(), config);
    }

    /// Remove a process configuration
    pub fn remove_config(&mut self, process_id: &str)
        requires
            old(self).wf(),
        ensures
            final(self).wf(),
            final(self).running() == old(self).running(),
            final(self).saved() == taken(old(self).saved(), process_id@),
    {
        let _ = self.configs.remove(process_id);
    }
}

impl Default for PtyProcessManager {
    fn default() -> (manager: Self)
        ensures
            manager.wf(),
            manager.running() == Seq::<(Seq<char>, u32)>::empty(),
            manager.saved() == Seq::<(Seq<char>, ProcessConfig)>::empty(),
    {
        Self::new()
    }
}

} // verus!
