//! Configuration data models.

use crate::text::chars_of;
use vstd::prelude::*;

verus! {

/// Health check configuration for a process.
///
/// The supervisor does not run the command itself: the block is kept for the
/// prober that does.
#[derive(Debug)]
pub struct HealthCheck {
    /// Command to execute for health check.
    pub command: String,
    /// Arguments for the health check command.
    pub args: Vec<String>,
    /// Interval between health checks in milliseconds.
    pub interval_ms: u64,
    /// Timeout for health check command in milliseconds.
    pub timeout_ms: u64,
    /// Number of retries before marking as unhealthy.
    pub retries: u32,
}

/// What a health check block holds, as plain values.
pub struct HealthCheckView {
    pub command: Seq<char>,
    pub args: Seq<Seq<char>>,
    pub interval_ms: u64,
    pub timeout_ms: u64,
    pub retries: u32,
}

impl View for HealthCheck {
    type V = HealthCheckView;

    open spec fn view(&self) -> HealthCheckView {
        HealthCheckView {
            command: self.command@,
            args: self.args.deep_view(),
            interval_ms: self.interval_ms,
            timeout_ms: self.timeout_ms,
            retries: self.retries,
        }
    }
}

impl DeepView for HealthCheck {
    type V = HealthCheckView;

    open spec fn deep_view(&self) -> HealthCheckView {
        self@
    }
}

impl Clone for HealthCheck {
    fn clone(&self) -> (copy: Self)
        ensures
            copy@ == self@,
    {
        HealthCheck {
            command: self.command.clone(),
            args: clone_strings(&self.args),
            interval_ms: self.interval_ms,
            timeout_ms: self.timeout_ms,
            retries: self.retries,
        }
    }
}

/// A copy of a list of strings.
pub fn clone_strings(list: &Vec<String>) -> (copy: Vec<String>)
    ensures
        copy@ == list@,
        copy.deep_view() == list.deep_view(),
{
    let mut out: Vec<String> = Vec::new();
    let mut i: usize = 0;
    while i < list.len()
        invariant
            i <= list.len(),
            out@ == list@.take(i as int),
        decreases list.len() - i,
    {
        out.push(list[i].clone());
        i = i + 1;
    }
    assert(out@ =~= list@);
    out
}

/// A copy of an environment: an ordered list of name and value pairs.
pub fn clone_env(env: &Vec<(String, String)>) -> (copy: Vec<(String, String)>)
    ensures
        copy@ == env@,
        copy.deep_view() == env.deep_view(),
{
    let mut out: Vec<(String, String)> = Vec::new();
    let mut i: usize = 0;
    while i < env.len()
        invariant
            i <= env.len(),
            out@ == env@.take(i as int),
        decreases env.len() - i,
    {
        out.push((env[i].0.clone(), env[i].1.clone()));
        i = i + 1;
    }
    assert(out@ =~= env@);
    out
}

/// Configuration for a single process.
#[derive(Debug)]
pub struct ProcessConfig {
    /// Unique name for the process.
    pub name: String,
    /// Command to execute.
    pub command: String,
    /// Command arguments (optional).
    pub args: Vec<String>,
    /// Working directory (optional).
    pub cwd: Option<String>,
    /// Environment variables, in the order in which they are applied: of two
    /// entries with one name the later wins.
    pub env: Vec<(String, String)>,
    /// Whether to automatically restart on crash.
    pub auto_restart: bool,
    /// Maximum number of restart attempts (0 = unlimited).
    pub restart_limit: u32,
    /// Delay between restarts in milliseconds.
    pub restart_delay: u64,
    /// List of process names this process depends on.
    pub depends_on: Vec<String>,
    /// Health check configuration (optional).
    pub health_check: Option<HealthCheck>,
}

/// What a process configuration holds, as plain values.
pub struct ProcessConfigView {
    pub name: Seq<char>,
    pub command: Seq<char>,
    pub args: Seq<Seq<char>>,
    pub cwd: Option<Seq<char>>,
    pub env: Seq<(Seq<char>, Seq<char>)>,
    pub auto_restart: bool,
    pub restart_limit: u32,
    pub restart_delay: u64,
    pub depends_on: Seq<Seq<char>>,
    pub health_check: Option<HealthCheckView>,
}

impl View for ProcessConfig {
    type V = ProcessConfigView;

    open spec fn view(&self) -> ProcessConfigView {
        ProcessConfigView {
            name: self.name@,
            command: self.command@,
            args: self.args.deep_view(),
            cwd: self.cwd.deep_view(),
            env: self.env.deep_view(),
            auto_restart: self.auto_restart,
            restart_limit: self.restart_limit,
            restart_delay: self.restart_delay,
            depends_on: self.depends_on.deep_view(),
            health_check: self.health_check.deep_view(),
        }
    }
}

impl DeepView for ProcessConfig {
    type V = ProcessConfigView;

    open spec fn deep_view(&self) -> ProcessConfigView {
        self@
    }
}

impl Clone for ProcessConfig {
    fn clone(&self) -> (copy: Self)
        ensures
            copy@ == self@,
    {
        let health_check = match &self.health_check {
            Some(check) => Some(check.clone()),
            None => None,
        };
        ProcessConfig {
            name: self.name.clone(),
            command: self.command.clone(),
            args: clone_strings(&self.args),
            cwd: self.cwd.clone(),
            env: clone_env(&self.env),
            auto_restart: self.auto_restart,
            restart_limit: self.restart_limit,
            restart_delay: self.restart_delay,
            depends_on: clone_strings(&self.depends_on),
            health_check,
        }
    }
}

/// Whether processes restart on a crash unless their configuration says otherwise.
pub fn default_auto_restart() -> (v: bool)
    ensures
        v,
{
    true
}

/// The restart limit of a process whose configuration names none.
pub fn default_restart_limit() -> (v: u32)
    ensures
        v == 5,
{
    5
}

/// The restart delay, in milliseconds, of a process whose configuration names none.
pub fn default_restart_delay() -> (v: u64)
    ensures
        v == 1000,
{
    1000
}

/// The log level where the settings name none.
pub fn default_log_level() -> (v: String)
    ensures
        v@ == "info"@,
{
    "info".to_owned()
}

/// The largest size of a log file, in bytes, where the settings name none: ten mebibytes.
pub fn default_max_log_size() -> (v: u64)
    ensures
        v == 10 * 1024 * 1024,
{
    10 * 1024 * 1024
}

/// The number of log files kept where the settings name none.
pub fn default_max_log_files() -> (v: u32)
    ensures
        v == 5,
{
    5
}

/// The graceful shutdown timeout, in milliseconds, where the settings name none.
pub fn default_graceful_shutdown_timeout() -> (v: u64)
    ensures
        v == 30_000,
{
    30_000
}

/// Global application settings.
#[derive(Debug)]
pub struct GlobalSettings {
    /// Log level (trace, debug, info, warn, error).
    pub log_level: String,
    /// Directory for storing logs.
    pub log_directory: Option<String>,
    /// Maximum log file size in bytes.
    pub max_log_size: u64,
    /// Maximum number of log files to keep.
    pub max_log_files: u32,
    /// Graceful shutdown timeout in milliseconds.
    pub graceful_shutdown_timeout: u64,
}

impl Clone for GlobalSettings {
    fn clone(&self) -> (copy: Self)
        ensures
            copy == *self,
    {
        GlobalSettings {
            log_level: self.log_level.clone(),
            log_directory: self.log_directory.clone(),
            max_log_size: self.max_log_size,
            max_log_files: self.max_log_files,
            graceful_shutdown_timeout: self.graceful_shutdown_timeout,
        }
    }
}

impl Default for GlobalSettings {
    fn default() -> (settings: Self)
        ensures
            settings.log_level@ == "info"@,
            settings.log_directory is None,
            settings.max_log_size == 10 * 1024 * 1024,
            settings.max_log_files == 5,
            settings.graceful_shutdown_timeout == 30_000,
    {
        GlobalSettings {
            log_level: default_log_level(),
            log_directory: None,
            max_log_size: default_max_log_size(),
            max_log_files: default_max_log_files(),
            graceful_shutdown_timeout: default_graceful_shutdown_timeout(),
        }
    }
}

/// Main configuration structure for Sentinel.
#[derive(Debug)]
pub struct Config {
    /// List of processes to manage.
    pub processes: Vec<ProcessConfig>,
    /// Global settings.
    pub settings: GlobalSettings,
    /// Global environment variables applied to all processes, beneath each
    /// process's own.
    pub global_env: Vec<(String, String)>,
}

/// What a configuration holds, as plain values.
pub struct ConfigView {
    pub processes: Seq<ProcessConfigView>,
    pub settings: GlobalSettings,
    pub global_env: Seq<(Seq<char>, Seq<char>)>,
}

impl View for Config {
    type V = ConfigView;

    open spec fn view(&self) -> ConfigView {
        ConfigView {
            processes: self.processes.deep_view(),
            settings: self.settings,
            global_env: self.global_env.deep_view(),
        }
    }
}

impl Clone for Config {
    fn clone(&self) -> (copy: Self)
        ensures
            copy@ == self@,
    {
        let mut processes: Vec<ProcessConfig> = Vec::new();
        let mut i: usize = 0;
        while i < self.processes.len()
            invariant
                i <= self.processes.len(),
                processes@.len() == i,
                forall|j: int| 0 <= j < i ==> (#[trigger] processes@[j])@ == self.processes@[j]@,
            decreases self.processes.len() - i,
        {
            processes.push(self.processes[i].clone());
            i = i + 1;
        }
        assert(processes.deep_view() =~= self.processes.deep_view());
        Config {
            processes,
            settings: self.settings.clone(),
            global_env: clone_env(&self.global_env),
        }
    }
}

/// The largest number of characters that a process name may have.
pub const MAX_NAME_LENGTH: usize = 128;

/// Whether `c` may stand in a process name: an ASCII letter, a digit, a dot,
/// an underscore or a hyphen.
pub open spec fn is_name_char(c: char) -> bool {
    ||| 'a' <= c <= 'z'
    ||| 'A' <= c <= 'Z'
    ||| '0' <= c <= '9'
    ||| c == '.'
    ||| c == '_'
    ||| c == '-'
}

/// Whether `name` can name a process: it is not empty, no longer than 128
/// characters, and made of the characters that a name may have.
pub open spec fn valid_process_name(name: Seq<char>) -> bool {
    &&& 0 < name.len() <= MAX_NAME_LENGTH
    &&& forall|i: int| 0 <= i < name.len() ==> is_name_char(#[trigger] name[i])
}

/// Whether `name` can name a process.
pub fn is_valid_process_name(name: &str) -> (r: bool)
    ensures
        r == valid_process_name(name@),
{
    let chars = chars_of(name);
    if chars.len() == 0 || chars.len() > MAX_NAME_LENGTH {
        return false;
    }
    let mut i: usize = 0;
    while i < chars.len()
        invariant
            i <= chars.len(),
            chars@ == name@,
            forall|j: int| 0 <= j < i ==> is_name_char(#[trigger] chars@[j]),
        decreases chars.len() - i,
    {
        let c = chars[i];
        let allowed = ('a' <= c && c <= 'z') || ('A' <= c && c <= 'Z') || ('0' <= c && c <= '9') || c
            == '.' || c == '_' || c == '-';
        if !allowed {
            return false;
        }
        i = i + 1;
    }
    true
}

/// The value that an environment gives a variable: that of the last entry
/// with the variable's name, since the entries are applied in order.
pub open spec fn env_value(env: Seq<(Seq<char>, Seq<char>)>, key: Seq<char>) -> Option<Seq<char>>
    decreases env.len(),
{
    if env.len() == 0 {
        None
    } else if env.last().0 == key {
        Some(env.last().1)
    } else {
        env_value(env.drop_last(), key)
    }
}

/// The global environment with the environment of a process laid over it.
pub open spec fn merged_env(
    global_env: Seq<(Seq<char>, Seq<char>)>,
    own_env: Seq<(Seq<char>, Seq<char>)>,
) -> Seq<(Seq<char>, Seq<char>)> {
    global_env + own_env
}

/// In the merged environment a variable has the value that the process gives
/// it, and the global value where the process gives it none.
pub proof fn lemma_own_env_wins(
    global_env: Seq<(Seq<char>, Seq<char>)>,
    own_env: Seq<(Seq<char>, Seq<char>)>,
    key: Seq<char>,
)
    ensures
        env_value(merged_env(global_env, own_env), key) == if env_value(own_env, key) is Some {
            env_value(own_env, key)
        } else {
            env_value(global_env, key)
        },
    decreases own_env.len(),
{
    if own_env.len() == 0 {
        assert(global_env + own_env =~= global_env);
    } else {
        assert((global_env + own_env).drop_last() =~= global_env + own_env.drop_last());
        assert((global_env + own_env).last() == own_env.last());
        if own_env.last().0 != key {
            lemma_own_env_wins(global_env, own_env.drop_last(), key);
        }
    }
}

impl ProcessConfig {
    /// This configuration with the global environment laid beneath its own:
    /// the global entries are applied first, so that of two entries with one
    /// name the one of the process wins.
    pub fn with_global_env(&self, global_env: &Vec<(String, String)>) -> (merged: ProcessConfig)
        ensures
            merged@ == (ProcessConfigView {
                env: merged_env(global_env.deep_view(), self@.env),
                ..self@
            }),
    {
        let mut merged = self.clone();
        let mut env = clone_env(global_env);
        let mut i: usize = 0;
        while i < self.env.len()
            invariant
                i <= self.env.len(),
                env.deep_view() == global_env.deep_view() + self.env.deep_view().take(i as int),
            decreases self.env.len() - i,
        {
            let ghost before = env.deep_view();
            env.push((self.env[i].0.clone(), self.env[i].1.clone()));
            assert(env.deep_view() =~= before.push(self.env.deep_view()[i as int]));
            assert(self.env.deep_view().take(i + 1) =~= self.env.deep_view().take(i as int).push(
                self.env.deep_view()[i as int],
            ));
            i = i + 1;
        }
        assert(self.env.deep_view().take(i as int) =~= self.env.deep_view());
        merged.env = env;
        merged
    }
}

} // verus!
