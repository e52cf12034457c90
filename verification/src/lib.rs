//! Supervisor core for a line-protocol worker process.
//!
//! The library holds the verified logic of a small process supervisor: the
//! text codec of the worker's line protocol, the coalescing snapshot of the
//! latest event per tracked kind, and the lifecycle state machine that decides
//! when to spawn, what to send, and how to wind a worker down. The actual
//! process handles, pipes and threads live outside the library, which only
//! ever sees plain values: lines, commands, and probe outcomes.

pub mod codec;
pub mod snapshot;
pub mod supervisor;
pub mod prefs;
