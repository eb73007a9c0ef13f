//! Runs a command against every commit of a revision range: the decisions of
//! the per-commit execution engine, stated and proved over plain values.
//!
//! The repository service, the spawned processes and the file system stay
//! with the caller. This library decides what they are asked to do, in which
//! order, and what their answers mean.

pub mod commit;
pub mod outcome;
pub mod range;
pub mod render;
pub mod report;
pub mod scheduler;
pub mod text;
pub mod unit;
pub mod workspace;
