//! Desym: keeps files and symlinks on disk in line with a declarative
//! configuration, remembering what it created so that entries dropped from the
//! configuration are cleaned up on the next run.
//!
//! This crate holds the decisions of that process; the program around it
//! performs the file-system work that each decision asks for.

pub mod text;
pub mod config;
pub mod settings;
pub mod paths;
pub mod cache;
pub mod created;
pub mod prompt;
pub mod install;
