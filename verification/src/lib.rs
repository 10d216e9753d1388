//! Kernel communication core for a desktop notebook front-end.
//!
//! The crate frames, signs and verifies wire messages exchanged with a
//! running computational kernel, matches asynchronous replies to their
//! requests, tracks heartbeat liveness, and drives the connection state
//! machine for one kernel session. Socket I/O itself lives outside the
//! library: callers hand frames and channel outcomes in as plain values.

pub mod codec;
pub mod descriptor;
pub mod errors;
pub mod heartbeat;
pub mod json;
pub mod messages;
pub mod router;
pub mod server;
pub mod session;
pub mod text;
