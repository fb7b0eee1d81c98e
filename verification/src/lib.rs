//! Fault management for vehicle software: fault descriptions and records, the
//! reporter side that filters and forwards them, and the diagnostic fault
//! manager that keeps the state of every fault and answers queries about it.
//!
//! Every item in this crate is verified. What needs a clock, a thread, a lock,
//! shared memory or a disk takes the outcome of that work as a plain value.

pub mod common;
pub mod dfm_lib;
pub mod fault_lib;
pub mod model;
pub mod pipeline;
