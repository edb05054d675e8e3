//! Slumber: hands a long shell command to a background daemon, records how it
//! ended and wakes an existing agent session with a compact completion event.
//!
//! This crate holds the decisions of that tool, each with its contract:
//! identifiers and paths, the shell text it writes, the job records and how
//! they move from submission to wake-up, the daemon's request handling, the
//! status listing and the command-line planning.
pub mod cli;
pub mod clock;
pub mod daemon;
pub mod exit;
pub mod init;
pub mod listing;
pub mod paths;
pub mod payload;
pub mod records;
pub mod remote;
pub mod shell;
pub mod supervisor;
pub mod text;
pub mod tmux;

