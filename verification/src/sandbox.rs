//! Where a shell command runs: on the host, or in a container that keeps it apart.

pub mod config;
pub mod docker;
pub mod host;
pub mod mounts;
pub mod paths;
pub mod process;
pub mod router;
pub mod runtime;
