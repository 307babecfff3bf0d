# simulation

Deterministic analogues of time, randomness and an in-memory network, with fault
injection, for simulation testing of asynchronous applications.

- `src/` is the library, verified with Verus. Each component is a state machine that
  takes the current mock time (nanoseconds), a seeded random source or an event, and
  returns its next decision: the mock clock, pipes and sockets, per-stream clogging and
  latency, the connection and listener books of the network, port allocation, fault
  injection and the swizzle clog generator.
- `tests/` runs the library on concrete scenarios.
- `app/` drives those state machines on the Tokio executor: runtimes, timers, wakers,
  `AsyncRead`/`AsyncWrite` implementations and the `Environment` trait.
