//! The form of a control message on the wire.
//!
//! On the wire a message is its path, a type tag for each argument and the
//! arguments' data, one after the other. Both strings end in one to four
//! zero bytes that bring them to a multiple of four bytes. Integers and
//! floats are four bytes each, most significant byte first, and booleans are
//! told by their type tags alone.

use crate::osc::message::{Argument, MessageView, MTU};
use vstd::arithmetic::div_mod::lemma_fundamental_div_mod_converse;
use vstd::prelude::*;
use vstd::utf8::{
    encode_scalar, encode_utf8, has_width_1_encoding, has_width_2_encoding, has_width_3_encoding,
    is_ascii_chars, is_ascii_chars_encode_utf8,
};

verus! {

/// The byte that opens the type tags.
pub const TAGS_START: u8 = 0x2c;

/// The type tag of an integer, `i`.
pub const TAG_INT: u8 = 0x69;

/// The type tag of a float, `f`.
pub const TAG_FLOAT: u8 = 0x66;

/// The type tag of `true`, `T`.
pub const TAG_TRUE: u8 = 0x54;

/// The type tag of `false`, `F`.
pub const TAG_FALSE: u8 = 0x46;

/// The byte that every path begins with, `/`.
pub const SLASH: u8 = 0x2f;

/// The 32 bits of an integer argument, read as an unsigned number.
pub open spec fn int_word(x: i32) -> u32 {
    if x < 0 {
        (x + 0x1_0000_0000) as u32
    } else {
        x as u32
    }
}

/// The integer argument with the given 32 bits.
pub open spec fn word_int(w: u32) -> i32 {
    if w >= 0x8000_0000 {
        (w - 0x1_0000_0000) as i32
    } else {
        w as i32
    }
}

/// The four bytes of a word, most significant byte first.
pub open spec fn word_bytes(w: u32) -> Seq<u8> {
    seq![
        (w / 0x100_0000) as u8,
        (w / 0x1_0000 % 0x100) as u8,
        (w / 0x100 % 0x100) as u8,
        (w % 0x100) as u8,
    ]
}

/// The word that four bytes spell, most significant byte first.
pub open spec fn bytes_word(b0: u8, b1: u8, b2: u8, b3: u8) -> u32 {
    (b0 * 0x100_0000 + b1 * 0x1_0000 + b2 * 0x100 + b3) as u32
}

impl Argument {
    /// The argument's type tag.
    pub open spec fn tag(self) -> u8 {
        match self {
            Argument::Int(_) => TAG_INT,
            Argument::Float(_) => TAG_FLOAT,
            Argument::Bool(true) => TAG_TRUE,
            Argument::Bool(false) => TAG_FALSE,
        }
    }

    /// The argument's data: four bytes for a number, none for a boolean.
    pub open spec fn data(self) -> Seq<u8> {
        match self {
            Argument::Int(x) => word_bytes(int_word(x)),
            Argument::Float(s) => word_bytes(s.bits),
            Argument::Bool(_) => Seq::empty(),
        }
    }
}

/// `n` zero bytes.
pub open spec fn zeros(n: nat) -> Seq<u8> {
    Seq::new(n, |i: int| 0u8)
}

/// How many zero bytes end a string of `n` bytes: at least one, and as many
/// as bring the whole to a multiple of four.
pub open spec fn padding(n: nat) -> nat {
    (4 - n % 4) as nat
}

/// A string with the zero bytes that end it.
pub open spec fn padded(content: Seq<u8>) -> Seq<u8> {
    content + zeros(padding(content.len()))
}

/// The length of a string of `n` bytes with the zero bytes that end it.
pub open spec fn frame(n: nat) -> nat {
    n + padding(n)
}

/// The type tags of a list of arguments.
pub open spec fn tags_of(args: Seq<Argument>) -> Seq<u8> {
    Seq::new(args.len(), |i: int| args[i].tag())
}

/// The type tags of a list of arguments, behind the comma that opens them.
pub open spec fn type_tags(args: Seq<Argument>) -> Seq<u8> {
    seq![TAGS_START] + tags_of(args)
}

/// The type tags of a list of arguments as characters, behind the comma
/// that opens them.
pub open spec fn tag_chars(args: Seq<Argument>) -> Seq<char> {
    seq![TAGS_START as char] + Seq::new(args.len(), |i: int| args[i].tag() as char)
}

/// The data of a list of arguments, one after the other.
pub open spec fn args_data(args: Seq<Argument>) -> Seq<u8>
    decreases args.len(),
{
    if args.len() == 0 {
        Seq::empty()
    } else {
        args_data(args.drop_last()) + args.last().data()
    }
}

/// `part` stands in `b` at `at`.
pub open spec fn holds_at(b: Seq<u8>, at: int, part: Seq<u8>) -> bool {
    0 <= at && at + part.len() <= b.len() && b.subrange(at, at + part.len()) == part
}

impl MessageView {
    /// The message on the wire.
    pub open spec fn bytes(self) -> Seq<u8> {
        padded(encode_utf8(self.addr)) + padded(type_tags(self.args)) + args_data(self.args)
    }

    /// The path begins with a slash and holds no NUL.
    pub open spec fn path_ok(self) -> bool {
        &&& self.addr.len() > 0
        &&& self.addr[0] == '/'
        &&& forall|i: int| 0 <= i < self.addr.len() ==> self.addr[i] != '\0'
    }

    /// The messages that can be built: the path begins with a slash and
    /// holds no NUL, and the message fits in one datagram.
    pub open spec fn acceptable(self) -> bool {
        &&& self.path_ok()
        &&& self.bytes().len() <= MTU
    }

    /// Where the type tags begin on the wire.
    pub open spec fn tags_at(self) -> int {
        frame(encode_utf8(self.addr).len()) as int
    }

    /// Where the arguments' data begins on the wire.
    pub open spec fn data_at(self) -> int {
        self.tags_at() + frame(1 + self.args.len())
    }
}

/// The message that `bytes` spells, if there is one.
pub open spec fn decoded(bytes: Seq<u8>) -> Option<MessageView> {
    if exists|m: MessageView| m.acceptable() && #[trigger] m.bytes() == bytes {
        Some(choose|m: MessageView| m.acceptable() && #[trigger] m.bytes() == bytes)
    } else {
        None
    }
}

/// No byte is zero.
pub open spec fn no_zero(b: Seq<u8>) -> bool {
    forall|j: int| 0 <= j < b.len() ==> b[j] != 0
}

/// What `path_ok` asks, said of the path's bytes.
pub open spec fn path_bytes_ok(b: Seq<u8>) -> bool {
    &&& b.len() > 0
    &&& b[0] == SLASH
    &&& no_zero(b)
}

/// A byte with a high bit set by force is at least that bit.
proof fn lemma_high_bits(x: u8)
    by (bit_vector)
    ensures
        0x80u8 | x >= 0x80u8,
        0xc0u8 | x >= 0xc0u8,
        0xe0u8 | x >= 0xe0u8,
        0xf0u8 | x >= 0xf0u8,
{
}

/// The low seven bits of a value below 128 are the value.
proof fn lemma_low_bits(s: u32)
    by (bit_vector)
    requires
        s <= 0x7f,
    ensures
        (s & 0x7f) as u8 == s,
{
}

/// The bytes of one character: there is at least one, none of them is zero
/// unless the character is NUL, and the first is a slash only for a slash.
proof fn lemma_scalar_bytes(c: char)
    ensures
        1 <= encode_scalar(c as u32).len() <= 4,
        c == '\0' ==> encode_scalar(c as u32) == seq![0u8],
        c != '\0' ==> no_zero(encode_scalar(c as u32)),
        encode_scalar(c as u32)[0] == SLASH <==> c == '/',
{
    let s = c as u32;
    if has_width_1_encoding(s) {
        lemma_low_bits(s);
        assert(encode_scalar(s) =~= seq![s as u8]);
    } else if has_width_2_encoding(s) {
        lemma_high_bits(((s >> 6) & 0x1F) as u8);
        lemma_high_bits((s & 0x3F) as u8);
    } else if has_width_3_encoding(s) {
        lemma_high_bits(((s >> 12) & 0x0F) as u8);
        lemma_high_bits(((s >> 6) & 0x3F) as u8);
        lemma_high_bits((s & 0x3F) as u8);
    } else {
        lemma_high_bits(((s >> 18) & 0x7) as u8);
        lemma_high_bits(((s >> 12) & 0x3F) as u8);
        lemma_high_bits(((s >> 6) & 0x3F) as u8);
        lemma_high_bits((s & 0x3F) as u8);
    }
}

/// A path is in order exactly when its bytes are.
pub proof fn lemma_path_bytes(chars: Seq<char>)
    ensures
        chars.len() <= encode_utf8(chars).len(),
        chars.len() == 0 <==> encode_utf8(chars).len() == 0,
        chars.len() > 0 ==> (encode_utf8(chars)[0] == SLASH <==> chars[0] == '/'),
        (forall|i: int| 0 <= i < chars.len() ==> chars[i] != '\0') <==> no_zero(
            encode_utf8(chars),
        ),
    decreases chars.len(),
{
    if chars.len() > 0 {
        let head = encode_scalar(chars[0] as u32);
        let rest = chars.drop_first();
        let tail = encode_utf8(rest);
        let all = encode_utf8(chars);
        lemma_scalar_bytes(chars[0]);
        lemma_path_bytes(rest);
        assert(all == head + tail);
        assert(all[0] == head[0]);
        if forall|i: int| 0 <= i < chars.len() ==> chars[i] != '\0' {
            assert forall|j: int| 0 <= j < all.len() implies all[j] != 0 by {
                if j < head.len() {
                    assert(all[j] == head[j]);
                } else {
                    assert forall|i: int| 0 <= i < rest.len() implies rest[i] != '\0' by {
                        assert(rest[i] == chars[i + 1]);
                    }
                    assert(all[j] == tail[j - head.len()]);
                }
            }
        }
        if no_zero(all) {
            assert forall|i: int| 0 <= i < chars.len() implies chars[i] != '\0' by {
                if i == 0 {
                    assert(all[0] == head[0]);
                } else {
                    assert forall|j: int| 0 <= j < tail.len() implies tail[j] != 0 by {
                        assert(all[j + head.len()] == tail[j]);
                    }
                    assert(chars[i] == rest[i - 1]);
                }
            }
        }
    }
}

/// A message's path is in order exactly when the path's bytes are.
pub proof fn lemma_path_ok(m: MessageView)
    ensures
        m.path_ok() <==> path_bytes_ok(encode_utf8(m.addr)),
{
    lemma_path_bytes(m.addr);
}

/// The data of `n` arguments is at most `4 * n` bytes.
pub proof fn lemma_args_data_len(args: Seq<Argument>)
    ensures
        args_data(args).len() <= 4 * args.len(),
    decreases args.len(),
{
    if args.len() > 0 {
        lemma_args_data_len(args.drop_last());
    }
}

/// A message on the wire is a whole number of four-byte words.
pub proof fn lemma_bytes_aligned(m: MessageView)
    ensures
        m.bytes().len() % 4 == 0,
{
    lemma_args_data_aligned(m.args);
}

/// The data of a list of arguments is a whole number of four-byte words.
proof fn lemma_args_data_aligned(args: Seq<Argument>)
    ensures
        args_data(args).len() % 4 == 0,
    decreases args.len(),
{
    if args.len() > 0 {
        lemma_args_data_aligned(args.drop_last());
    }
}

/// The length of a message on the wire.
pub proof fn lemma_bytes_len(m: MessageView)
    ensures
        m.bytes().len() == frame(encode_utf8(m.addr).len()) + frame(1 + m.args.len())
            + args_data(m.args).len(),
{
}

/// Where a string stands in a buffer, its bytes come first and a zero
/// follows them.
pub proof fn lemma_string_at(b: Seq<u8>, at: int, content: Seq<u8>)
    requires
        holds_at(b, at, padded(content)),
    ensures
        at + frame(content.len()) <= b.len(),
        b.subrange(at, at + content.len()) == content,
        forall|j: int| at + content.len() <= j < at + frame(content.len()) ==> b[j] == 0,
{
    let whole = padded(content);
    let part = b.subrange(at, at + whole.len());
    assert(b.subrange(at, at + content.len()) =~= content) by {
        assert forall|j: int| 0 <= j < content.len() implies b[at + j] == content[j] by {
            assert(part[j] == whole[j]);
        }
    }
    assert forall|j: int| at + content.len() <= j < at + frame(content.len()) implies b[j]
        == 0 by {
        assert(part[j - at] == whole[j - at]);
    }
}

/// Two strings without a zero byte that stand at one place are one string.
pub proof fn lemma_string_unique(b: Seq<u8>, at: int, c1: Seq<u8>, c2: Seq<u8>)
    requires
        no_zero(c1),
        no_zero(c2),
        holds_at(b, at, padded(c1)),
        holds_at(b, at, padded(c2)),
    ensures
        c1 == c2,
{
    lemma_string_at(b, at, c1);
    lemma_string_at(b, at, c2);
    if c1.len() < c2.len() {
        assert(b[at + c1.len()] == 0);
        assert(b.subrange(at, at + c2.len())[c1.len() as int] == c2[c1.len() as int]);
    } else if c2.len() < c1.len() {
        assert(b[at + c2.len()] == 0);
        assert(b.subrange(at, at + c1.len())[c2.len() as int] == c1[c2.len() as int]);
    }
}

/// No type tag is zero, nor is the comma before them.
pub proof fn lemma_tags_no_zero(args: Seq<Argument>)
    ensures
        no_zero(tags_of(args)),
        no_zero(type_tags(args)),
{
}

/// The characters of the type tags are their bytes.
pub proof fn lemma_tag_chars(args: Seq<Argument>)
    ensures
        encode_utf8(tag_chars(args)) == type_tags(args),
{
    let chars = tag_chars(args);
    assert(is_ascii_chars(chars));
    is_ascii_chars_encode_utf8(chars);
    assert(encode_utf8(chars) =~= type_tags(args));
}

/// The three parts of a message on the wire, and where they stand.
pub proof fn lemma_anatomy(m: MessageView)
    ensures
        m.bytes().len() == m.data_at() + args_data(m.args).len(),
        holds_at(m.bytes(), 0, padded(encode_utf8(m.addr))),
        holds_at(m.bytes(), m.tags_at(), padded(type_tags(m.args))),
        m.bytes().subrange(m.data_at(), m.bytes().len() as int) == args_data(m.args),
{
    let b = m.bytes();
    let head = padded(encode_utf8(m.addr));
    let tags = padded(type_tags(m.args));
    assert(b.subrange(0, head.len() as int) =~= head);
    assert(b.subrange(m.tags_at(), m.tags_at() + tags.len()) =~= tags);
    assert(b.subrange(m.data_at(), b.len() as int) =~= args_data(m.args));
}

/// The data of a list of arguments that grew by one.
pub proof fn lemma_args_data_push(args: Seq<Argument>, arg: Argument)
    ensures
        args_data(args.push(arg)) == args_data(args) + arg.data(),
{
    assert(args.push(arg).drop_last() =~= args);
}

/// Lists with the same type tags have data of the same length.
pub proof fn lemma_tags_fix_len(a1: Seq<Argument>, a2: Seq<Argument>)
    requires
        tags_of(a1) == tags_of(a2),
    ensures
        a1.len() == a2.len(),
        args_data(a1).len() == args_data(a2).len(),
    decreases a1.len(),
{
    assert(a1.len() == tags_of(a1).len());
    assert(a2.len() == tags_of(a2).len());
    if a1.len() > 0 {
        let n = a1.len() - 1;
        assert(tags_of(a1)[n] == a1[n].tag());
        assert(tags_of(a2)[n] == a2[n].tag());
        assert(tags_of(a1.drop_last()) =~= tags_of(a1).drop_last());
        assert(tags_of(a2.drop_last()) =~= tags_of(a2).drop_last());
        lemma_tags_fix_len(a1.drop_last(), a2.drop_last());
    }
}

/// The data of the first arguments of a list is no longer than the data of
/// all of them.
pub proof fn lemma_args_data_take(args: Seq<Argument>, n: int)
    requires
        0 <= n <= args.len(),
    ensures
        args_data(args.take(n)).len() <= args_data(args).len(),
    decreases args.len() - n,
{
    if n < args.len() {
        assert(args.take(n + 1).drop_last() =~= args.take(n));
        lemma_args_data_take(args, n + 1);
    } else {
        assert(args.take(n) =~= args);
    }
}

/// A word is told by its four bytes.
pub proof fn lemma_word_bytes(w: u32)
    ensures
        word_bytes(w).len() == 4,
        bytes_word(word_bytes(w)[0], word_bytes(w)[1], word_bytes(w)[2], word_bytes(w)[3]) == w,
{
}

/// Four bytes are told by the word they spell.
pub proof fn lemma_bytes_word(b0: u8, b1: u8, b2: u8, b3: u8)
    ensures
        word_bytes(bytes_word(b0, b1, b2, b3)) == seq![b0, b1, b2, b3],
{
    let w: int = b0 * 0x100_0000 + b1 * 0x1_0000 + b2 * 0x100 + b3;
    lemma_fundamental_div_mod_converse(w, 0x100_0000, b0 as int, b1 * 0x1_0000 + b2 * 0x100 + b3);
    lemma_fundamental_div_mod_converse(w, 0x1_0000, b0 * 0x100 + b1, b2 * 0x100 + b3);
    lemma_fundamental_div_mod_converse(b0 * 0x100 + b1, 0x100, b0 as int, b1 as int);
    lemma_fundamental_div_mod_converse(w, 0x100, b0 * 0x1_0000 + b1 * 0x100 + b2, b3 as int);
    lemma_fundamental_div_mod_converse(
        b0 * 0x1_0000 + b1 * 0x100 + b2,
        0x100,
        b0 * 0x100 + b1,
        b2 as int,
    );
    assert(word_bytes(bytes_word(b0, b1, b2, b3)) =~= seq![b0, b1, b2, b3]);
}

/// An integer is told by its 32 bits.
pub proof fn lemma_int_word(x: i32, w: u32)
    ensures
        word_int(int_word(x)) == x,
        int_word(word_int(w)) == w,
{
}

/// An argument is told by its type tag and its data.
pub proof fn lemma_argument_unique(a: Argument, b: Argument)
    requires
        a.tag() == b.tag(),
        a.data() == b.data(),
    ensures
        a == b,
{
    match (a, b) {
        (Argument::Int(x), Argument::Int(y)) => {
            lemma_word_bytes(int_word(x));
            lemma_word_bytes(int_word(y));
            lemma_int_word(x, 0);
            lemma_int_word(y, 0);
        },
        (Argument::Float(x), Argument::Float(y)) => {
            lemma_word_bytes(x.bits);
            lemma_word_bytes(y.bits);
        },
        _ => {},
    }
}

/// A list of arguments is told by its type tags and its data.
pub proof fn lemma_args_unique(a1: Seq<Argument>, a2: Seq<Argument>)
    requires
        tags_of(a1) == tags_of(a2),
        args_data(a1) == args_data(a2),
    ensures
        a1 == a2,
    decreases a1.len(),
{
    lemma_tags_fix_len(a1, a2);
    if a1.len() > 0 {
        let n = a1.len() - 1;
        let x = a1[n];
        let y = a2[n];
        let d1 = args_data(a1.drop_last());
        let d2 = args_data(a2.drop_last());
        assert(tags_of(a1)[n] == x.tag());
        assert(tags_of(a2)[n] == y.tag());
        assert(tags_of(a1.drop_last()) =~= tags_of(a1).drop_last());
        assert(tags_of(a2.drop_last()) =~= tags_of(a2).drop_last());
        lemma_tags_fix_len(a1.drop_last(), a2.drop_last());
        assert(x.data().len() == y.data().len());
        assert(d1 =~= args_data(a1).take(d1.len() as int));
        assert(d2 =~= args_data(a2).take(d2.len() as int));
        assert(x.data() =~= args_data(a1).skip(d1.len() as int));
        assert(y.data() =~= args_data(a2).skip(d2.len() as int));
        lemma_argument_unique(x, y);
        lemma_args_unique(a1.drop_last(), a2.drop_last());
        assert(a1 =~= a1.drop_last().push(x));
        assert(a2 =~= a2.drop_last().push(y));
    } else {
        assert(a1 =~= a2);
    }
}

/// No two messages that can be built look the same on the wire.
pub proof fn encoding_is_unambiguous(m1: MessageView, m2: MessageView)
    requires
        m1.acceptable(),
        m2.acceptable(),
        m1.bytes() == m2.bytes(),
    ensures
        m1 == m2,
{
    broadcast use vstd::utf8::encode_utf8_decode_utf8;

    let b = m1.bytes();
    lemma_anatomy(m1);
    lemma_anatomy(m2);
    lemma_path_ok(m1);
    lemma_path_ok(m2);
    lemma_string_unique(b, 0, encode_utf8(m1.addr), encode_utf8(m2.addr));
    assert(m1.addr == vstd::utf8::decode_utf8(encode_utf8(m1.addr)));
    assert(m2.addr == vstd::utf8::decode_utf8(encode_utf8(m2.addr)));
    lemma_tags_no_zero(m1.args);
    lemma_tags_no_zero(m2.args);
    lemma_string_unique(b, m1.tags_at(), type_tags(m1.args), type_tags(m2.args));
    assert(tags_of(m1.args) =~= type_tags(m1.args).skip(1));
    assert(tags_of(m2.args) =~= type_tags(m2.args).skip(1));
    lemma_tags_fix_len(m1.args, m2.args);
    lemma_args_unique(m1.args, m2.args);
}

/// Decoding what was encoded gives the message back.
pub proof fn decode_inverts_encode(m: MessageView)
    requires
        m.acceptable(),
    ensures
        decoded(m.bytes()) == Some(m),
{
    let found = choose|x: MessageView| x.acceptable() && #[trigger] x.bytes() == m.bytes();
    encoding_is_unambiguous(found, m);
}

} // verus!
