//! The runtime's decisions: line reading, socket I/O retries, the fiber scheduler's
//! bookkeeping, and deferred values.

pub mod io;
pub mod lines;
pub mod sched;
pub mod deferred;
