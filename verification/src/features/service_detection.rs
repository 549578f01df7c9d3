//! What a detected service is classed as.

use vstd::prelude::*;

verus! {

/// The kind of a service.
#[derive(Debug, Clone, Copy, PartialEq, Eq, Structural)]
pub enum ServiceCategory {
    WebFramework,
    Database,
    MessageQueue,
    Cache,
    Proxy,
    Development,
    Unknown,
}

/// How a service fares.
#[derive(Debug, Clone, Copy, PartialEq, Eq, Structural)]
pub enum HealthStatus {
    Healthy,
    Degraded,
    Unhealthy,
    Unknown,
}

/// What a service of a known kind looks like from outside.
#[derive(Debug, Clone)]
pub struct ServicePattern {
    pub name: String,
    pub category: ServiceCategory,
    pub process_patterns: Vec<String>,
    pub port_hints: Vec<u16>,
    pub command_patterns: Vec<String>,
    pub description: String,
    pub docs_url: Option<String>,
    pub health_check_path: Option<String>,
    pub icon: String,
}

impl ServicePattern {
    /// Whether the pattern names `port` among the ports that its service
    /// usually listens on.
    pub fn hints_port(&self, port: u16) -> (r: bool)
        ensures
            r == self.port_hints@.contains(port),
    {
        let mut i: usize = 0;
        while i < self.port_hints.len()
            invariant
                i <= self.port_hints.len(),
                forall|j: int| 0 <= j < i ==> self.port_hints@[j] != port,
            decreases self.port_hints.len() - i,
        {
            if self.port_hints[i] == port {
                return true;
            }
            i = i + 1;
        }
        false
    }
}

} // verus!
