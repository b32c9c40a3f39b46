//! The command-line client's logic: its settings and how it reads commands.
pub mod commands;
pub mod config;
