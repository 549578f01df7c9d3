//! Core logic: log capture, lifecycle rules, dependency ordering and sampling.

pub mod config;
pub mod dependency;
pub mod external_process_monitor;
pub mod interpolation;
pub mod launch;
pub mod log_buffer;
pub mod metrics_buffer;
pub mod process_config;
pub mod process_manager;
pub mod pty_process_manager;
pub mod registry;
pub mod restart;
pub mod stream_reader;
pub mod system_monitor;

pub use config::ConfigManager;
pub use external_process_monitor::{LogSource, ProcessAttachment};
pub use log_buffer::{LogBuffer, LogLine, LogStream};
pub use metrics_buffer::{MetricsBuffer, TimedMetric};
pub use process_config::{get_framework_templates, FrameworkType, ProcessStatus, ProcessTemplate};
pub use process_manager::ProcessManager;
pub use pty_process_manager::{
    ProcessConfig as PtyProcessConfig, ProcessExitEvent, ProcessInfo, ProcessOutputEvent,
    PtyProcessManager,
};
pub use stream_reader::StreamReader;
pub use system_monitor::SystemMonitor;
