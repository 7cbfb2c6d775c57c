//! Verified core of a command-line manager for saved MongoDB connections.

pub mod error;
pub mod outside;
pub mod text;
pub mod process;
pub mod server;
pub mod database;
pub mod connection_info;
pub mod command;
