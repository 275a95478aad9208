//! Human-in-the-loop interaction: diff review, corrections and sessions.
pub mod types;
pub mod config;
pub mod diff_review;
pub mod session;
