//! Command-line arguments and the planning behind each subcommand.

pub mod args;
pub mod commands;
