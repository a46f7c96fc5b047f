//! Core of a command-line project orchestrator: locating a project root by an
//! upward directory search, loading and checking a declarative configuration,
//! planning shell commands, validating a required directory layout, and
//! running named tasks with fail-fast semantics.
//!
//! All filesystem and process work happens outside this crate: callers query
//! the world, hand the answers in as plain values, and perform the commands
//! this crate plans. Every decision the orchestrator makes is verified here.

pub mod build_flow;
pub mod check;
pub mod command;
pub mod config;
pub mod errors;
pub mod init;
pub mod locate;
pub mod parse;
pub mod pipeline;
pub mod render;
pub mod roundtrip;
pub mod run;
pub mod text;
