//! The decisions of an agent that runs tools.
//!
//! `sandbox` decides where a shell command runs and with which container arguments, `mcp` drives
//! connections to tool servers, and `skills` answers requests about skills. None of them touches
//! the outside world: each takes what was observed as a value and returns what to do next.

pub mod clock;
pub mod mcp;
pub mod sandbox;
pub mod skills;
pub mod table;
pub mod text;
