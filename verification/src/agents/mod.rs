//! Sub-agent orchestration: agent lifecycle, turn limits and checkpoints.
pub mod types;
pub mod checkpoint;

pub mod orchestrator;
