//! A per-application VPN sandbox toolkit: a network-namespace lifecycle
//! planner, a tunnel-configuration sanitizer, a namespace-scoped process
//! locator, a privileged launcher's decision logic, and the small record
//! store that backs them.

pub mod cli;
pub mod config;
pub mod errors;
pub mod host;
pub mod launch;
pub mod ops;
pub mod plan;
pub mod procs;
pub mod session;
pub mod storage;
pub mod text;
