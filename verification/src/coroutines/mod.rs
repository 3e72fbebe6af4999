//! Collection of I/O-free, resumable and composable socket state
//! machines.
//!
//! Coroutines emit [`SocketInput`](crate::io::SocketInput) requests that
//! need to be processed by a runtime in order to continue their
//! progression.

pub mod read;
pub mod read_exact;
pub mod read_to_end;
pub mod write;
pub mod buffers;
