//! Format-aware file transfer: path decomposition, format and command
//! resolution against a user catalog, destination planning, command-template
//! substitution, and the destructive-operation confirmation guard.

pub mod catalog;
pub mod command;
pub mod confirm;
pub mod paths;
pub mod plan;
pub mod resolve;
pub mod strutil;
