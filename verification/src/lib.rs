//! Core of a lightweight performance-counter profiler for a single target
//! process.
//!
//! The profiler runs a command in a child process and counts hardware and
//! software events while it runs. This crate holds what the profiler
//! decides, each part with a machine-checked contract:
//!
//! - [`event`]: the catalogue of events and their names;
//! - [`counter`]: the counters of a run and their readings;
//! - [`handshake`]: the bytes that parent and child exchange at the launch;
//! - [`child`]: the child's side of the launch, step by step;
//! - [`stat`]: the run itself, step by step, up to its report;
//! - [`report`]: the lines of the report;
//! - [`error`]: what ends a run early, and the message for it;
//! - [`test`]: the selection of the profiler's sanity tests;
//! - [`messages`]: messages of a front end;
//! - [`text`]: numerals and comma-separated lists.
//!
//! Processes, pipes, clocks and the kernel are left to the program that
//! uses the crate: it performs the steps that [`stat::StatRun`] and
//! [`child::ChildPhase`] ask for and reports what came of them.

pub mod child;
pub mod counter;
pub mod error;
pub mod event;
pub mod handshake;
pub mod messages;
pub mod report;
pub mod stat;
pub mod test;
pub mod text;
