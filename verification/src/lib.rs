//! Deterministic simulation of time, randomness, in-memory networking and fault
//! injection, as verified state machines.
//!
//! Every component here is a plain state machine: it takes the current mock time,
//! a deterministic random source or an event as arguments, and returns the next
//! decision. The asynchronous executor that drives them lives outside this crate.

pub mod addr;
pub mod clock;
pub mod random;
pub mod poll;
pub mod swizzle;
pub mod buffer;
pub mod pipe;
pub mod fault;
pub mod socket;
pub mod stream_fault;
pub mod memstream;
pub mod network;
pub mod ports;
