//! Skill modules: manifests, trigger rules and the daemon's decision logic.
pub mod types;
pub mod manifest;
pub mod priority;


pub mod daemon;
