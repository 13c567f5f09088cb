//! The failures of the motion subsystem.

use vstd::prelude::*;

verus! {

/// What can go wrong between the canvas and the remote pen.
#[derive(Debug, Clone, Copy, PartialEq, Eq, Structural)]
pub enum ControlError {
    /// The local address could not be bound.
    BindError,
    /// A part that exists once was set up a second time.
    AlreadyInitialized,
    /// A datagram could not be sent.
    SendError,
    /// The socket failed while waiting for a datagram.
    ReceiveError,
    /// A buffer does not hold one control message in wire form.
    MalformedPacket,
    /// A speed that is not greater than zero.
    InvalidSpeed,
}

} // verus!
