//! Data models shared by the supervisor, the sampler and their callers.

pub mod config;
pub mod process;
pub mod state;
pub mod system;

pub use config::{Config, GlobalSettings, HealthCheck, ProcessConfig};
pub use process::{ProcessInfo, ProcessState};
pub use state::{ProcessRuntimeInfo, RuntimeState};
pub use system::{DiskStats, SystemInfo};
