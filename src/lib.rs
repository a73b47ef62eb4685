//! A duplex byte-stream relay between a WebSocket transport and a pair of
//! local streams (this process's stdio, or a subprocess's pipes).
//!
//! The relay's decisions live here and are verified: how a read becomes a
//! chunk, how a subprocess's output is cut into lines, and the session state
//! machine that forwards data in both directions and ends the session exactly
//! once. Driving the sockets, pipes and tasks is left to the caller.
pub mod framing;
pub mod session;
pub mod runs;
