//! Job orchestration and progress inference for a document-conversion
//! pipeline: a registry of jobs, a parser that turns the pipeline's free
//! text into progress, stage and time left, the decisions of the runner
//! that drives a batch, and the resolver that finds a job's results.
//!
//! The library decides and computes on plain values. Reading the disk,
//! running processes and telling the time are left to its caller, who
//! hands in what was seen and does what comes back.

pub mod access;
pub mod band;
pub mod decimal;
pub mod environment;
pub mod error;
pub mod invocation;
pub mod job;
pub mod markers;
pub mod names;
pub mod progress;
pub mod query;
pub mod recent;
pub mod registry;
pub mod resolver;
pub mod runner;
pub mod settings;
pub mod snapshot;
pub mod submit;
pub mod text;
