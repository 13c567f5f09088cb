//! Control messages to bytes and back.

use crate::error::ControlError;
use crate::osc::message::{Argument, ControlMessage, MessageView, MTU};
use crate::osc::wire::{
    args_data, bytes_word, decode_inverts_encode, decoded, encoding_is_unambiguous, frame,
    holds_at, int_word, lemma_anatomy, lemma_args_data_push, lemma_args_data_take,
    lemma_bytes_aligned, lemma_bytes_word, lemma_int_word, lemma_path_ok, lemma_string_at,
    lemma_string_unique, lemma_tag_chars, lemma_tags_fix_len, lemma_tags_no_zero, no_zero,
    padded, padding, tag_chars, tags_of, type_tags, word_bytes, word_int, SLASH, TAGS_START,
    TAG_FALSE, TAG_FLOAT, TAG_INT, TAG_TRUE,
};
use crate::single::Single;
use vstd::prelude::*;
use vstd::slice::slice_subrange;
use vstd::string::StringSliceAdditionalSpecFns;
use vstd::utf8::{encode_utf8, valid_utf8};

verus! {

/// `rosc::encoder::encode_string`: the bytes of `s`, and behind them one to
/// four zero bytes that bring the whole to a multiple of four bytes.
#[verifier::external_body]
fn osc_string(s: &str) -> (r: Vec<u8>)
    ensures
        r@ == padded(encode_utf8(s@)),
{
    rosc::encoder::encode_string(s)
}

/// `rosc::encoder::pad`: `pos` itself where it is a multiple of four, and
/// the next multiple of four where it is not.
#[verifier::external_body]
fn osc_pad(pos: u64) -> (r: u64)
    requires
        pos <= u64::MAX - 3,
    ensures
        r == if pos % 4 == 0 {
            pos as int
        } else {
            pos + (4 - pos % 4)
        },
{
    rosc::encoder::pad(pos)
}

/// The length of a string of `n` bytes with the zero bytes that end it.
pub(crate) fn framed(n: usize) -> (r: usize)
    requires
        n <= usize::MAX - 4,
    ensures
        r == frame(n as nat),
{
    osc_pad(n as u64 + 1) as usize
}

/// The type tag of `arg`, as a string.
fn tag_word(arg: &Argument) -> (r: &'static str)
    ensures
        r@ == seq![arg.tag() as char],
{
    proof {
        reveal_strlit("i");
        reveal_strlit("f");
        reveal_strlit("T");
        reveal_strlit("F");
    }
    let word: &'static str = match arg {
        Argument::Int(_) => "i",
        Argument::Float(_) => "f",
        Argument::Bool(true) => "T",
        Argument::Bool(false) => "F",
    };
    assert(word@ =~= seq![arg.tag() as char]);
    word
}

/// The string of the type tags of `args`: a comma, and a letter for each
/// argument.
fn tag_string(args: &Vec<Argument>) -> (r: String)
    ensures
        encode_utf8(r@) == type_tags(args@),
{
    proof {
        reveal_strlit(",");
    }
    let mut tags: String = String::from_str(",");
    let mut i: usize = 0;
    assert(tags@ =~= tag_chars(args@.take(0)));
    while i < args.len()
        invariant
            i <= args.len(),
            tags@ == tag_chars(args@.take(i as int)),
        decreases args.len() - i,
    {
        tags = tags.concat(tag_word(&args[i]));
        i = i + 1;
        assert(tags@ =~= tag_chars(args@.take(i as int)));
    }
    proof {
        assert(args@.take(i as int) =~= args@);
        lemma_tag_chars(args@);
    }
    tags
}

/// The 32 bits of `x`, read as an unsigned number.
fn word_of_int(x: i32) -> (r: u32)
    ensures
        r == int_word(x),
{
    if x < 0 {
        (x as i64 + 0x1_0000_0000) as u32
    } else {
        x as u32
    }
}

/// Appends the four bytes of `w`, most significant byte first.
fn put_word(out: &mut Vec<u8>, w: u32)
    ensures
        final(out)@ == old(out)@ + word_bytes(w),
{
    out.push((w / 0x100_0000) as u8);
    out.push((w / 0x1_0000 % 0x100) as u8);
    out.push((w / 0x100 % 0x100) as u8);
    out.push((w % 0x100) as u8);
    assert(out@ =~= old(out)@ + word_bytes(w));
}

/// The message on the wire: a whole number of four-byte words that fit in
/// one datagram, and that spell this message and no other.
pub fn encode(message: &ControlMessage) -> (r: Vec<u8>)
    ensures
        message@.acceptable(),
        r@ == message@.bytes(),
        r@.len() <= MTU,
        r@.len() % 4 == 0,
        decoded(r@) == Some(message@),
{
    let path: &str = message.addr();
    let args: &Vec<Argument> = message.args();
    proof {
        lemma_bytes_aligned(message@);
        decode_inverts_encode(message@);
    }
    let mut out: Vec<u8> = osc_string(path);
    let tags: String = tag_string(args);
    let mut tail: Vec<u8> = osc_string(tags.as_str());
    out.append(&mut tail);
    let ghost front = out@;
    assert(args_data(args@.take(0)) =~= Seq::<u8>::empty());
    assert(out@ =~= front + args_data(args@.take(0)));

    let mut j: usize = 0;
    while j < args.len()
        invariant
            j <= args.len(),
            out@ == front + args_data(args@.take(j as int)),
        decreases args.len() - j,
    {
        proof {
            assert(args@.take(j + 1).drop_last() =~= args@.take(j as int));
        }
        match args[j] {
            Argument::Int(x) => put_word(&mut out, word_of_int(x)),
            Argument::Float(s) => put_word(&mut out, s.to_bits()),
            Argument::Bool(_) => {},
        }
        j = j + 1;
        assert(out@ =~= front + args_data(args@.take(j as int)));
    }
    assert(args@.take(j as int) =~= args@);
    out
}

/// What is wrong with bytes that are not UTF-8.
#[verifier::external_type_specification]
#[verifier::external_body]
pub struct ExUtf8Error(core::str::Utf8Error);

/// `core::str::from_utf8` takes the bytes for a string exactly when they are
/// valid UTF-8, and the string it gives has those bytes.
pub assume_specification[ core::str::from_utf8 ](v: &[u8]) -> (r: Result<
    &str,
    core::str::Utf8Error,
>)
    ensures
        r is Ok <==> valid_utf8(v@),
        r matches Ok(s) ==> s.spec_bytes() == v@,
;

/// The first zero byte of a buffer from `from` on is where the string that
/// stands there ends.
proof fn lemma_string_end(b: Seq<u8>, from: int, end: int, content: Seq<u8>)
    requires
        0 <= from <= end <= b.len(),
        forall|j: int| from <= j < end ==> b[j] != 0,
        end < b.len() ==> b[end] == 0,
        no_zero(content),
        holds_at(b, from, padded(content)),
    ensures
        end < b.len(),
        content.len() == end - from,
{
    lemma_string_at(b, from, content);
    let e = from + content.len();
    assert(b[e] == 0);
    if end < e {
        assert(b.subrange(from, e)[end - from] == content[end - from]);
    }
}

/// Looks for the string that stands at `from`: where its bytes end, and
/// where the zero bytes behind it end.
fn read_string(bytes: &[u8], from: usize) -> (r: Option<(usize, usize)>)
    requires
        from <= bytes.len() <= MTU,
    ensures
        match r {
            Some((end, next)) => {
                &&& from <= end < next <= bytes.len()
                &&& next - from == frame((end - from) as nat)
                &&& no_zero(bytes@.subrange(from as int, end as int))
                &&& holds_at(
                    bytes@,
                    from as int,
                    padded(bytes@.subrange(from as int, end as int)),
                )
            },
            None => forall|c: Seq<u8>|
                no_zero(c) ==> !holds_at(bytes@, from as int, #[trigger] padded(c)),
        },
{
    let mut end: usize = from;
    while end < bytes.len() && bytes[end] != 0
        invariant
            from <= end <= bytes.len(),
            forall|j: int| from <= j < end ==> bytes@[j] != 0,
        decreases bytes.len() - end,
    {
        end = end + 1;
    }
    if end == bytes.len() {
        assert forall|c: Seq<u8>| no_zero(c) implies !holds_at(
            bytes@,
            from as int,
            #[trigger] padded(c),
        ) by {
            if holds_at(bytes@, from as int, padded(c)) {
                lemma_string_end(bytes@, from as int, end as int, c);
            }
        }
        return None;
    }
    let count: usize = framed(end - from) - (end - from);
    if bytes.len() - end < count {
        assert forall|c: Seq<u8>| no_zero(c) implies !holds_at(
            bytes@,
            from as int,
            #[trigger] padded(c),
        ) by {
            if holds_at(bytes@, from as int, padded(c)) {
                lemma_string_end(bytes@, from as int, end as int, c);
            }
        }
        return None;
    }
    let next: usize = end + count;
    let mut i: usize = end;
    while i < next
        invariant
            from <= end <= i <= next <= bytes.len(),
            next == end + padding((end - from) as nat),
            forall|j: int| from <= j < end ==> bytes@[j] != 0,
            bytes@[end as int] == 0,
            forall|j: int| end <= j < i ==> bytes@[j] == 0,
        decreases next - i,
    {
        if bytes[i] != 0 {
            assert forall|c: Seq<u8>| no_zero(c) implies !holds_at(
                bytes@,
                from as int,
                #[trigger] padded(c),
            ) by {
                if holds_at(bytes@, from as int, padded(c)) {
                    lemma_string_end(bytes@, from as int, end as int, c);
                    lemma_string_at(bytes@, from as int, c);
                }
            }
            return None;
        }
        i = i + 1;
    }
    proof {
        let content = bytes@.subrange(from as int, end as int);
        assert(bytes@.subrange(from as int, next as int) =~= padded(content));
    }
    Some((end, next))
}

/// The word that stands at `at`, most significant byte first.
fn read_word(bytes: &[u8], at: usize) -> (r: u32)
    requires
        at + 4 <= bytes.len(),
    ensures
        r == bytes_word(bytes@[at as int], bytes@[at + 1], bytes@[at + 2], bytes@[at + 3]),
{
    let b0: u32 = bytes[at] as u32;
    let b1: u32 = bytes[at + 1] as u32;
    let b2: u32 = bytes[at + 2] as u32;
    let b3: u32 = bytes[at + 3] as u32;
    b0 * 0x100_0000 + b1 * 0x1_0000 + b2 * 0x100 + b3
}

/// The integer with the 32 bits of `w`.
fn int_of_word(w: u32) -> (r: i32)
    ensures
        r == word_int(w),
{
    if w >= 0x8000_0000 {
        (w as i64 - 0x1_0000_0000) as i32
    } else {
        w as i32
    }
}

/// No list of arguments has a type tag that is none of the four.
proof fn lemma_tag_is_known(args: Seq<Argument>, j: int)
    requires
        0 <= j < args.len(),
    ensures
        tags_of(args)[j] == TAG_INT || tags_of(args)[j] == TAG_FLOAT || tags_of(args)[j]
            == TAG_TRUE || tags_of(args)[j] == TAG_FALSE,
        tags_of(args)[j] == TAG_INT || tags_of(args)[j] == TAG_FLOAT ==> args[j].data().len()
            == 4,
{
}

/// A list of arguments whose first `j` type tags go with `pos` bytes of
/// data, and whose next argument is a number, has at least four bytes more.
proof fn lemma_number_needs_room(a: Seq<Argument>, known: Seq<Argument>, j: int)
    requires
        0 <= j < a.len(),
        tags_of(known) == tags_of(a).take(j),
        tags_of(a)[j] == TAG_INT || tags_of(a)[j] == TAG_FLOAT,
    ensures
        args_data(known).len() + 4 <= args_data(a).len(),
{
    assert(tags_of(a.take(j)) =~= tags_of(a).take(j));
    lemma_tags_fix_len(a.take(j), known);
    assert(a.take(j + 1) =~= a.take(j).push(a[j]));
    lemma_args_data_push(a.take(j), a[j]);
    lemma_tag_is_known(a, j);
    lemma_args_data_take(a, j + 1);
}

/// Reads the arguments that go with `tags` out of `data`.
fn read_args(tags: &[u8], data: &[u8]) -> (r: Option<Vec<Argument>>)
    ensures
        match r {
            Some(a) => tags_of(a@) == tags@ && args_data(a@) == data@,
            None => forall|a: Seq<Argument>|
                !(#[trigger] tags_of(a) == tags@ && args_data(a) == data@),
        },
{
    let mut args: Vec<Argument> = Vec::new();
    let mut pos: usize = 0;
    let mut j: usize = 0;
    assert(tags_of(args@) =~= tags@.take(0));
    assert(args_data(args@) =~= data@.take(0));
    while j < tags.len()
        invariant
            j <= tags.len(),
            pos <= data.len(),
            args.len() == j,
            tags_of(args@) == tags@.take(j as int),
            args_data(args@) == data@.take(pos as int),
        decreases tags.len() - j,
    {
        let tag: u8 = tags[j];
        let ghost before = args@;
        if tag == TAG_INT || tag == TAG_FLOAT {
            if data.len() - pos < 4 {
                assert forall|a: Seq<Argument>| !(#[trigger] tags_of(a) == tags@ && args_data(a)
                    == data@) by {
                    if tags_of(a) == tags@ && args_data(a) == data@ {
                        lemma_number_needs_room(a, before, j as int);
                    }
                }
                return None;
            }
            let w: u32 = read_word(data, pos);
            let arg: Argument = if tag == TAG_INT {
                Argument::Int(int_of_word(w))
            } else {
                Argument::Float(Single::from_bits(w))
            };
            proof {
                lemma_int_word(0, w);
                lemma_bytes_word(
                    data@[pos as int],
                    data@[pos + 1],
                    data@[pos + 2],
                    data@[pos + 3],
                );
                lemma_args_data_push(before, arg);
                assert(data@.take(pos + 4) =~= data@.take(pos as int) + arg.data());
            }
            args.push(arg);
            pos = pos + 4;
        } else if tag == TAG_TRUE || tag == TAG_FALSE {
            let arg: Argument = Argument::Bool(tag == TAG_TRUE);
            proof {
                lemma_args_data_push(before, arg);
                assert(data@.take(pos as int) + arg.data() =~= data@.take(pos as int));
            }
            args.push(arg);
        } else {
            assert forall|a: Seq<Argument>| !(#[trigger] tags_of(a) == tags@ && args_data(a)
                == data@) by {
                if tags_of(a) == tags@ {
                    lemma_tag_is_known(a, j as int);
                }
            }
            return None;
        }
        j = j + 1;
        assert(tags_of(args@) =~= tags@.take(j as int));
    }
    assert(tags@.take(j as int) =~= tags@);
    if pos != data.len() {
        assert forall|a: Seq<Argument>| !(#[trigger] tags_of(a) == tags@ && args_data(a)
            == data@) by {
            if tags_of(a) == tags@ {
                lemma_tags_fix_len(a, args@);
            }
        }
        return None;
    }
    assert(data@.take(pos as int) =~= data@);
    Some(args)
}

/// The message that `bytes` spells. Bytes that are not exactly one message
/// in wire form, from the first byte to the last, are a malformed packet.
pub fn decode(bytes: &[u8]) -> (r: Result<ControlMessage, ControlError>)
    ensures
        match r {
            Ok(m) => m@.acceptable() && m@.bytes() == bytes@ && decoded(bytes@) == Some(m@),
            Err(e) => e == ControlError::MalformedPacket && decoded(bytes@) is None,
        },
{
    broadcast use vstd::utf8::encode_utf8_valid_utf8;

    let ghost b = bytes@;
    let ghost w = decoded(b);
    proof {
        if w is Some {
            let m = w->0;
            assert(m.acceptable() && m.bytes() == b);
            lemma_anatomy(m);
            lemma_path_ok(m);
            lemma_tags_no_zero(m.args);
        }
    }
    if bytes.len() > MTU {
        return Err(ControlError::MalformedPacket);
    }
    let (end, tags_at) = match read_string(bytes, 0) {
        Some(found) => found,
        None => {
            return Err(ControlError::MalformedPacket);
        },
    };
    let path: &[u8] = slice_subrange(bytes, 0, end);
    proof {
        if w is Some {
            lemma_string_unique(b, 0, encode_utf8((w->0).addr), path@);
        }
    }
    if end == 0 || path[0] != SLASH {
        return Err(ControlError::MalformedPacket);
    }
    let addr: &str = match core::str::from_utf8(path) {
        Ok(s) => s,
        Err(_) => {
            return Err(ControlError::MalformedPacket);
        },
    };
    let (tags_end, data_at) = match read_string(bytes, tags_at) {
        Some(found) => found,
        None => {
            return Err(ControlError::MalformedPacket);
        },
    };
    let ghost tag_string = b.subrange(tags_at as int, tags_end as int);
    proof {
        if w is Some {
            lemma_string_unique(b, tags_at as int, type_tags((w->0).args), tag_string);
            assert(tags_of((w->0).args) =~= tag_string.skip(1));
        }
    }
    if tags_end == tags_at || bytes[tags_at] != TAGS_START {
        return Err(ControlError::MalformedPacket);
    }
    let tags: &[u8] = slice_subrange(bytes, tags_at + 1, tags_end);
    let data: &[u8] = slice_subrange(bytes, data_at, bytes.len());
    assert(tags@ =~= tag_string.skip(1));
    let args: Vec<Argument> = match read_args(tags, data) {
        Some(args) => args,
        None => {
            return Err(ControlError::MalformedPacket);
        },
    };
    let ghost m = MessageView { addr: addr@, args: args@ };
    proof {
        assert(tag_string =~= type_tags(args@));
        assert(m.bytes() =~= b) by {
            lemma_string_at(b, 0, path@);
            lemma_string_at(b, tags_at as int, tag_string);
            assert(b =~= b.subrange(0, tags_at as int) + b.subrange(
                tags_at as int,
                data_at as int,
            ) + b.subrange(data_at as int, b.len() as int));
        }
        lemma_path_ok(m);
        assert(m.acceptable());
        encoding_is_unambiguous(w->0, m);
    }
    Ok(ControlMessage::assemble(String::from_str(addr), args))
}

} // verus!
