//! Supervisor core for long-running builder scripts.
//!
//! A *builder* is one named external script kept running by the host
//! program.  This crate holds the verified state of such a supervisor:
//! the cumulative output buffers of one builder generation, the builder
//! value itself (name, process-group id, buffers), the registry that maps
//! names to builders, and the text-level helpers the host needs (script
//! paths, request-path parsing, description extraction).
//!
//! Everything that touches the operating system — spawning the script,
//! reading its pipes on a worker, delivering the process-group signal —
//! stays in the host program.  The host hands this crate plain values
//! (the lines drained from the reader channel, the child's process-group
//! id, the outcome of a spawn attempt) and this crate answers with the
//! next state and the action to take, under contracts proved by Verus.

pub mod builder;
pub mod description;
pub mod output;
pub mod paths;
pub mod registry;
