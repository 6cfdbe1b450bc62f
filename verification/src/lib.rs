//! CodeLink: background jobs beside an agent session, and pruning of the session's prompt.
pub mod agent;
pub mod cli;
pub mod compress;
pub mod error;
pub mod instructions;
pub mod item;
pub mod job;
pub mod number;
pub mod pattern;
pub mod pruner;
pub mod remote;
pub mod report;
pub mod shell;
pub mod store;
pub mod text;
pub mod tool;
pub mod watch;
