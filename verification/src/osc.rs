//! The control protocol: endpoints, datagrams and the pen handler.

pub mod codec;
pub mod message;
pub mod pen_handle;
pub mod tick;
pub mod wire;

use crate::error::ControlError;
use crate::osc::codec::{decode, encode};
use crate::osc::message::{Argument, ControlMessage, MessageView};
use crate::osc::pen_handle::Command;
use crate::osc::wire::{decoded, lemma_args_data_len, lemma_bytes_len};
use vstd::prelude::*;
use vstd::slice::slice_subrange;
use vstd::utf8::{is_ascii_chars, is_ascii_chars_encode_utf8};

verus! {

/// The path under which the remote receiver keeps every parameter.
pub const DEFAULT_BASE_ADDR: &'static str = "/avatar/parameters";

/// What stands between the base path and a command's own path.
pub const DEFAULT_ADDR: &'static str = "";

/// Both ends of the protocol are on this host.
pub const DEFAULT_IP_ADDR: &'static str = "127.0.0.1";

/// The port on which the remote receiver listens.
pub const DEFAULT_RECEIVER_OSC_PORT: usize = 9000;

/// The port from which commands are sent.
pub const DEFAULT_SENDER_OSC_PORT: usize = 9001;

/// The time between two evaluations of the pen handler, in milliseconds.
pub const CANVAS_UPDATE_LATENCY_DEFAULT_MS: u64 = 100;

/// How long the evaluation loop rests after a tick that took `spent`
/// milliseconds: what is left of the period, or nothing where the tick took
/// longer. The time from one tick to the next is then the longer of the two.
pub fn rest_after(period: u64, spent: u64) -> (r: u64)
    ensures
        r == if spent < period {
            period - spent
        } else {
            0
        },
        spent + r == if spent < period {
            period
        } else {
            spent
        },
{
    if spent < period {
        period - spent
    } else {
        0
    }
}

/// The message that carries `value` to the parameter at `addr`.
pub open spec fn packet(addr: Seq<char>, value: Seq<Argument>) -> MessageView {
    MessageView { addr: DEFAULT_BASE_ADDR@ + DEFAULT_ADDR@ + addr, args: value }
}

/// The datagram that carries `value` to the parameter at `addr`, below the
/// receiver's base path. Where path and arguments make no message, nothing
/// can be sent.
pub fn send_packet(addr: &str, value: Vec<Argument>) -> (r: Result<Vec<u8>, ControlError>)
    ensures
        match r {
            Ok(datagram) => {
                &&& packet(addr@, value@).acceptable()
                &&& datagram@ == packet(addr@, value@).bytes()
                &&& decoded(datagram@) == Some(packet(addr@, value@))
            },
            Err(e) => e == ControlError::SendError && !packet(addr@, value@).acceptable(),
        },
{
    let full: String = String::from_str(DEFAULT_BASE_ADDR).concat(DEFAULT_ADDR).concat(addr);
    match ControlMessage::new(full.as_str(), value) {
        Some(message) => Ok(encode(&message)),
        None => Err(ControlError::SendError),
    }
}

/// Every command of the pen handler makes a message: sending one can fail
/// at the socket only.
pub proof fn every_command_can_be_sent(command: Command)
    ensures
        packet(command.path(), command.arguments()).acceptable(),
{
    reveal_strlit("/avatar/parameters");
    reveal_strlit("");
    reveal_strlit("/move_");
    reveal_strlit("/on_moving");
    reveal_strlit("/on_drawing");
    reveal_strlit("right");
    reveal_strlit("left");
    reveal_strlit("up");
    reveal_strlit("down");
    let m = packet(command.path(), command.arguments());
    assert(m.addr.len() <= 32);
    assert(is_ascii_chars(m.addr));
    is_ascii_chars_encode_utf8(m.addr);
    lemma_bytes_len(m);
    lemma_args_data_len(m.args);
}

/// The message in the first `size` bytes of `buf`, which is what the socket
/// said it had received. A size beyond the buffer is the socket's failure,
/// and bytes that are no message are a malformed packet.
pub fn receive_packet(buf: &[u8], size: usize) -> (r: Result<ControlMessage, ControlError>)
    ensures
        match r {
            Ok(m) => {
                &&& size <= buf@.len()
                &&& m@.bytes() == buf@.take(size as int)
                &&& decoded(buf@.take(size as int)) == Some(m@)
            },
            Err(e) => if size > buf@.len() {
                e == ControlError::ReceiveError
            } else {
                e == ControlError::MalformedPacket && decoded(buf@.take(size as int)) is None
            },
        },
{
    if size > buf.len() {
        return Err(ControlError::ReceiveError);
    }
    decode(slice_subrange(buf, 0, size))
}

} // verus!
