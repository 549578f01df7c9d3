//! Docker monitoring data types

use vstd::prelude::*;

verus! {

/// Port mapping information
#[derive(Debug, Clone)]
pub struct PortMapping {
    /// Container port
    pub container_port: u16,
    /// Host port (if mapped)
    pub host_port: Option<u16>,
    /// Protocol (tcp/udp)
    pub protocol: String,
    /// Host IP (if bound to specific IP)
    pub host_ip: Option<String>,
}

/// Docker system information
#[derive(Debug, Clone)]
pub struct DockerInfo {
    /// Docker daemon available
    pub available: bool,
    /// Docker version
    pub version: Option<String>,
    /// Number of containers
    pub containers_count: Option<usize>,
    /// Number of running containers
    pub containers_running: Option<usize>,
    /// Number of paused containers
    pub containers_paused: Option<usize>,
    /// Number of stopped containers
    pub containers_stopped: Option<usize>,
    /// Number of images
    pub images_count: Option<usize>,
    /// Server version
    pub server_version: Option<String>,
    /// Operating system
    pub operating_system: Option<String>,
    /// Architecture
    pub architecture: Option<String>,
}

impl DockerInfo {
    /// What is known of Docker where its daemon cannot be reached: nothing.
    pub fn unavailable() -> (info: Self)
        ensures
            !info.available,
            info.version is None,
            info.containers_count is None,
            info.containers_running is None,
            info.containers_paused is None,
            info.containers_stopped is None,
            info.images_count is None,
            info.server_version is None,
            info.operating_system is None,
            info.architecture is None,
    {
        DockerInfo {
            available: false,
            version: None,
            containers_count: None,
            containers_running: None,
            containers_paused: None,
            containers_stopped: None,
            images_count: None,
            server_version: None,
            operating_system: None,
            architecture: None,
        }
    }
}

/// Result of a container operation
#[derive(Debug, Clone)]
pub struct ContainerOperationResult {
    /// Whether the operation succeeded
    pub success: bool,
    /// Container ID that was operated on
    pub container_id: String,
    /// Operation that was performed
    pub operation: String,
    /// Error message if failed
    pub error: Option<String>,
}

impl ContainerOperationResult {
    /// The result of an operation that succeeded.
    pub fn succeeded(container_id: String, operation: String) -> (result: Self)
        ensures
            result.success,
            result.container_id == container_id,
            result.operation == operation,
            result.error is None,
    {
        ContainerOperationResult { success: true, container_id, operation, error: None }
    }

    /// The result of an operation that failed for the given reason.
    pub fn failed(container_id: String, operation: String, error: String) -> (result: Self)
        ensures
            !result.success,
            result.container_id == container_id,
            result.operation == operation,
            result.error == Some(error),
    {
        ContainerOperationResult { success: false, container_id, operation, error: Some(error) }
    }
}

} // verus!
