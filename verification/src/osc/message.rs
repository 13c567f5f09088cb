//! Control messages: a path and a short list of arguments.

use crate::osc::codec::framed;
use crate::osc::wire::{args_data, lemma_bytes_len, lemma_path_ok, no_zero, path_bytes_ok, SLASH};
use crate::single::Single;
use vstd::prelude::*;
use vstd::utf8::encode_utf8;

verus! {

/// The largest datagram that is sent or taken.
pub const MTU: usize = 1536;

/// One argument of a control message.
#[derive(Debug, Clone, Copy, PartialEq)]
pub enum Argument {
    Bool(bool),
    Float(Single),
    Int(i32),
}

/// What a message holds, as plain values.
pub struct MessageView {
    pub addr: Seq<char>,
    pub args: Seq<Argument>,
}

/// A path and a list of arguments that fit in one datagram.
#[derive(Debug, PartialEq)]
pub struct ControlMessage {
    addr: String,
    args: Vec<Argument>,
}

impl View for ControlMessage {
    type V = MessageView;

    closed spec fn view(&self) -> MessageView {
        MessageView { addr: self.addr@, args: self.args@ }
    }
}

/// The length of the data of `args`.
fn data_len(args: &Vec<Argument>) -> (r: usize)
    requires
        args.len() <= MTU,
    ensures
        r == args_data(args@).len(),
        r <= 4 * args.len(),
{
    let mut total: usize = 0;
    let mut i: usize = 0;
    while i < args.len()
        invariant
            i <= args.len() <= MTU,
            total == args_data(args@.take(i as int)).len(),
            total <= 4 * i,
        decreases args.len() - i,
    {
        proof {
            assert(args@.take(i + 1).drop_last() =~= args@.take(i as int));
        }
        match args[i] {
            Argument::Bool(_) => {},
            _ => {
                total = total + 4;
            },
        }
        i = i + 1;
    }
    proof {
        assert(args@.take(i as int) =~= args@);
    }
    total
}

impl ControlMessage {
    #[verifier::type_invariant]
    spec fn inv(self) -> bool {
        self@.acceptable()
    }

    /// The message with this path and these arguments, if there is one: the
    /// path has to begin with a slash and hold no NUL, and the whole has to
    /// fit in one datagram.
    pub fn new(addr: &str, args: Vec<Argument>) -> (r: Option<ControlMessage>)
        ensures
            r is Some <==> (MessageView { addr: addr@, args: args@ }).acceptable(),
            r matches Some(m) ==> m@ == (MessageView { addr: addr@, args: args@ }),
    {
        let ghost m = MessageView { addr: addr@, args: args@ };
        let path: &[u8] = addr.as_bytes();
        proof {
            lemma_path_ok(m);
            lemma_bytes_len(m);
        }
        if path.len() == 0 || path[0] != SLASH || path.len() > MTU || args.len() > MTU {
            return None;
        }
        let mut i: usize = 0;
        while i < path.len()
            invariant
                i <= path.len(),
                forall|j: int| 0 <= j < i ==> path@[j] != 0,
                path@ == encode_utf8(addr@),
                m == (MessageView { addr: addr@, args: args@ }),
                m.path_ok() <==> path_bytes_ok(encode_utf8(m.addr)),
            decreases path.len() - i,
        {
            if path[i] == 0 {
                assert(!no_zero(path@)) by {
                    assert(path@[i as int] == 0);
                }
                return None;
            }
            i = i + 1;
        }
        let total: usize = framed(path.len()) + framed(args.len() + 1) + data_len(&args);
        if total > MTU {
            return None;
        }
        Some(ControlMessage { addr: String::from_str(addr), args })
    }

    /// The message with this path and these arguments, which are known to
    /// make a message.
    pub(crate) fn assemble(addr: String, args: Vec<Argument>) -> (r: ControlMessage)
        requires
            (MessageView { addr: addr@, args: args@ }).acceptable(),
        ensures
            r@ == (MessageView { addr: addr@, args: args@ }),
    {
        ControlMessage { addr, args }
    }

    /// The path.
    pub fn addr(&self) -> (r: &str)
        ensures
            r@ == self@.addr,
            self@.acceptable(),
    {
        proof {
            use_type_invariant(self);
        }
        self.addr.as_str()
    }

    /// The arguments, in order.
    pub fn args(&self) -> (r: &Vec<Argument>)
        ensures
            r@ == self@.args,
    {
        &self.args
    }
}

} // verus!
