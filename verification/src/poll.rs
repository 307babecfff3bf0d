//! The outcome of polling a state machine once.
use vstd::prelude::*;

verus! {

/// Either the operation completed with a value, or it cannot make progress yet and the
/// caller must wait for an external event (a wake-up or a deadline) before polling again.
#[derive(Clone, Copy, Debug, PartialEq, Eq, Structural)]
pub enum Poll<T> {
    Ready(T),
    Pending,
}

/// The kinds of I/O failure that the simulated network reports.
#[derive(Clone, Copy, Debug, PartialEq, Eq, Structural)]
pub enum IoErrorKind {
    BrokenPipe,
    AddrInUse,
    AddrNotAvailable,
    ConnectionRefused,
    ConnectionAborted,
    NotConnected,
    InvalidInput,
    Other,
}

} // verus!
