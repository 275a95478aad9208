//! Verified core of the Arcana agent runtime: diff review and session
//! bookkeeping, skill triggering, sub-agent orchestration, memory helpers,
//! authority command handling and the terminal UI's state machines.
pub mod text;
pub mod json;
pub mod outside;
pub mod hitl;
pub mod skills;
pub mod agents;
pub mod memory;
pub mod authority;
pub mod tui;
