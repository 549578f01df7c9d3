//! Sentinel: a process supervisor for developer workstations.
//!
//! The library holds the supervisor's rules as verified code: the bounded log
//! store, the line splitter that feeds it, the lifecycle state machine with its
//! restart policy, the dependency orderer, the registry behind the PTY
//! supervisor and the bookkeeping of the resource sampler. Spawning, signalling,
//! sleeping and sampling the operating system are left to the caller, which
//! performs the actions that the library decides on and reports back what
//! happened.
//!
//! Beside the supervisor stand the rules that its collaborators share with
//! it: how a configuration is checked and its variables are filled in, how
//! the output of the port scanner is read, and the records that are
//! exchanged.

pub mod clock;
pub mod display;
pub mod engine;
pub mod error;
pub mod features;
pub mod models;
pub mod text;
