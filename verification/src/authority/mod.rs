//! Authority and recording: the command line of the authority program and
//! the display of its record log.
pub mod command;
pub mod log;
