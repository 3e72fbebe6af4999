//! I/O-free, resumable and composable socket state machines.
//!
//! A coroutine never touches a socket: it hands out a [`io::SocketInput`]
//! request, the caller performs it and resumes the coroutine with the
//! matching [`io::SocketOutput`].

pub mod coroutines;
pub mod io;
pub mod text;
