//! Reconstruction of a program dependence graph from a linear trace of
//! low-level memory events.
//!
//! Given an ordered event trace and a table resolving each event's opaque
//! location reference, the assembler produces a forest of per-origin
//! dependency graphs: each node is one memory operation, and each edge
//! records that a pointer's value was derived from an earlier operation.

pub mod assemble;
pub mod event;
pub mod graph;
pub mod laws;
pub mod tables;
