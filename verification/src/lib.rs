//! Decision logic of the OpenShell gateway, sandbox supervisor and log viewer.

pub mod backend;
pub mod clock;
pub mod cluster;
pub mod cluster_laws;
pub mod connect;
pub mod container_logs;
pub mod inference;
pub mod json;
pub mod log_pane;
pub mod number;
pub mod proxy;
pub mod runtime;
pub mod sandbox;
pub mod sandbox_logs;
pub mod session;
pub mod ssh;
pub mod string_map;
pub mod text;
