//! The records that the supervisor's collaborators exchange with it: ports,
//! containers, network traffic and detected services.

pub mod docker;
pub mod network_monitor;
pub mod port_discovery;
pub mod port_parser;
pub mod service_detection;
