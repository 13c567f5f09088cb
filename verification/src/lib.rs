//! Pen motion control for a remote avatar, driven over an OSC-style
//! datagram protocol.
//!
//! The crate holds the pen state model, the motion controller with its
//! per-tick state machine, and the wire codec for control messages. Sockets,
//! timers and the window that samples the pointer belong to the application
//! around it.

pub mod error;
pub mod osc;
pub mod single;
