//! prexp: a process explorer focused on open file descriptors.
//!
//! This crate holds the verified core: the data model of process snapshots,
//! the text formats, the parsers for kernel tables, and the state machine of
//! the interactive explorer.

pub mod models;
pub mod text;
pub mod error;
pub mod system;
pub mod output;
pub mod sort;
pub mod tui;
pub mod clock;
pub mod source;
pub mod backend;
pub mod json;
pub mod ffi;
pub mod username;
