//! Lint orchestration for KCL sources: rule checkers that turn resolver
//! diagnostics and raw source lines into findings, a linter that aggregates
//! and counts those findings over a run, and reporters that render the result.

pub mod text;
pub mod message;
pub mod collections;
pub mod context;
pub mod config;
pub mod base_checker;
pub mod imports;
pub mod misc;
pub mod linter;
pub mod reporter;
pub mod format;
