//! Byte-level helpers for UTF-8 text: copying byte ranges and turning checked
//! byte buffers back into `String`s.
use vstd::prelude::*;
use vstd::utf8::*;

verus! {

/// The UTF-8 bytes of a character sequence (the bytes a `String` holds).
pub open spec fn utf8(s: Seq<char>) -> Seq<u8> {
    encode_utf8(s)
}

/// Appends `src[from..to]` to `out`.
pub fn push_range(out: &mut Vec<u8>, src: &[u8], from: usize, to: usize)
    requires
        from <= to <= src@.len(),
    ensures
        final(out)@ == old(out)@ + src@.subrange(from as int, to as int),
{
    let ghost start = out@;
    let mut i = from;
    while i < to
        invariant
            from <= i <= to <= src@.len(),
            out@ == start + src@.subrange(from as int, i as int),
        decreases to - i,
    {
        out.push(src[i]);
        assert(src@.subrange(from as int, i + 1) =~= src@.subrange(from as int, i as int).push(
            src@[i as int],
        ));
        i = i + 1;
    }
}

/// The bytes of a string slice, as an owned buffer.
pub fn bytes_of(s: &str) -> (res: Vec<u8>)
    ensures
        res@ == utf8(s@),
{
    let b = s.as_bytes();
    let mut out: Vec<u8> = Vec::new();
    push_range(&mut out, b, 0, b.len());
    assert(b@.subrange(0, b@.len() as int) =~= b@);
    out
}

/// Wraps `String::from_utf8`: the buffer becomes a `String` exactly when it
/// is valid UTF-8, and the string then decodes to those bytes.
#[verifier::external_body]
fn string_from_utf8(bytes: Vec<u8>) -> (res: Option<String>)
    ensures
        res is Some <==> valid_utf8(bytes@),
        res matches Some(s) ==> s@ == decode_utf8(bytes@),
{
    String::from_utf8(bytes).ok()
}

/// Turns a buffer that is known to hold valid UTF-8 into a `String` whose
/// bytes are exactly that buffer.
pub fn string_from_valid_utf8(bytes: Vec<u8>) -> (res: String)
    requires
        valid_utf8(bytes@),
    ensures
        utf8(res@) == bytes@,
{
    let ghost b = bytes@;
    match string_from_utf8(bytes) {
        Some(s) => {
            proof {
                decode_utf8_encode_utf8(b);
            }
            s
        },
        None => {
            proof {
                assert(false);
            }
            String::new()
        },
    }
}

/// Converts a buffer of bytes to a `String`, or `None` where the buffer is
/// not valid UTF-8.
pub fn string_from_bytes(bytes: Vec<u8>) -> (res: Option<String>)
    ensures
        res is Some <==> valid_utf8(bytes@),
        res matches Some(s) ==> utf8(s@) == bytes@,
{
    let ghost b = bytes@;
    let r = string_from_utf8(bytes);
    proof {
        if valid_utf8(b) {
            decode_utf8_encode_utf8(b);
        }
    }
    r
}

/// Splitting valid UTF-8 at a char boundary and joining valid UTF-8 pieces
/// keeps it valid.
pub proof fn lemma_valid_splice(t: Seq<u8>, at: int, x: Seq<u8>)
    requires
        valid_utf8(t),
        valid_utf8(x),
        is_char_boundary(t, at),
        0 <= at <= t.len(),
    ensures
        valid_utf8(t.take(at) + x + t.skip(at)),
        valid_utf8(t.take(at) + x),
{
    valid_utf8_split(t, at);
    assert(t.take(at) =~= t.subrange(0, at));
    assert(t.skip(at) =~= t.subrange(at, t.len() as int));
    valid_utf8_concat(t.take(at), x);
    valid_utf8_concat(t.take(at) + x, t.skip(at));
}

/// Removing the bytes between two char boundaries keeps UTF-8 valid.
pub proof fn lemma_valid_cut(t: Seq<u8>, from: int, to: int)
    requires
        valid_utf8(t),
        is_char_boundary(t, from),
        is_char_boundary(t, to),
        0 <= from <= to <= t.len(),
    ensures
        valid_utf8(t.take(from) + t.skip(to)),
{
    valid_utf8_split(t, from);
    valid_utf8_split(t, to);
    assert(t.take(from) =~= t.subrange(0, from));
    assert(t.skip(to) =~= t.subrange(to, t.len() as int));
    valid_utf8_concat(t.take(from), t.skip(to));
}

/// Keeping the bytes before a char boundary keeps UTF-8 valid.
pub proof fn lemma_valid_prefix(t: Seq<u8>, at: int)
    requires
        valid_utf8(t),
        is_char_boundary(t, at),
        0 <= at <= t.len(),
    ensures
        valid_utf8(t.take(at)),
{
    valid_utf8_split(t, at);
    assert(t.take(at) =~= t.subrange(0, at));
}


/// The bytes of `s` cut to at most `len`: where it holds more, its first
/// `len` bytes followed by `...`.
pub open spec fn truncated_bytes(s: Seq<char>, len: nat) -> Seq<u8> {
    if utf8(s).len() > len {
        utf8(s).take(len as int) + seq![46u8, 46u8, 46u8]
    } else {
        utf8(s)
    }
}

/// Three full stops are valid UTF-8.
proof fn lemma_dots_valid()
    ensures
        valid_utf8(seq![46u8, 46u8, 46u8]),
{
    assert((46u8 & 0x7Fu8) == 46u8) by (bit_vector);
    let d0 = Seq::<u8>::empty();
    let d1 = seq![46u8];
    let d2 = seq![46u8, 46u8];
    let d3 = seq![46u8, 46u8, 46u8];
    assert(valid_utf8(d0));
    assert(pop_first_scalar(d1) =~= d0);
    assert(valid_utf8(d1));
    assert(pop_first_scalar(d2) =~= d1);
    assert(valid_utf8(d2));
    assert(pop_first_scalar(d3) =~= d2);
}

/// `text` cut to its first `len` bytes, with `...` after them, where it is
/// longer than that; otherwise `text` itself. The cut must fall on a
/// character boundary.
pub fn truncated_text(text: &str, len: usize) -> (r: String)
    requires
        utf8(text@).len() > len ==> is_char_boundary(utf8(text@), len as int),
    ensures
        utf8(r@) == truncated_bytes(text@, len as nat),
{
    let b = text.as_bytes();
    proof {
        encode_utf8_valid_utf8(text@);
    }
    if b.len() <= len {
        return crate::strs::owned(text);
    }
    let mut out: Vec<u8> = Vec::new();
    push_range(&mut out, b, 0, len);
    assert(b@.subrange(0, len as int) =~= utf8(text@).take(len as int));
    proof {
        lemma_valid_prefix(utf8(text@), len as int);
    }
    let ghost head = out@;
    out.push(46u8);
    out.push(46u8);
    out.push(46u8);
    proof {
        let dots = seq![46u8, 46u8, 46u8];
        lemma_dots_valid();
        valid_utf8_concat(head, dots);
        assert(out@ =~= head + dots);
    }
    string_from_valid_utf8(out)
}


/// A text to be shown cut to at most `LEN` bytes.
pub struct Truncated<const LEN: usize> {
    shown: String,
}

impl<const LEN: usize> Truncated<LEN> {
    /// The text, before any cut.
    pub closed spec fn spec_shown(&self) -> Seq<char> {
        self.shown@
    }

    /// The text as shown: its first `LEN` bytes and `...` where it is
    /// longer, else all of it. The cut must fall on a character boundary.
    pub fn fmt(&self) -> (r: String)
        requires
            utf8(self.spec_shown()).len() > LEN ==> is_char_boundary(
                utf8(self.spec_shown()),
                LEN as int,
            ),
        ensures
            utf8(r@) == truncated_bytes(self.spec_shown(), LEN as nat),
    {
        truncated_text(self.shown.as_str(), LEN)
    }
}

/// Wrapping a rendered text to show it cut.
pub trait Truncate: Sized {
    /// The text, to be shown cut to at most `LEN` bytes.
    fn truncate<const LEN: usize>(self) -> Truncated<LEN>;
}

impl Truncate for String {
    fn truncate<const LEN: usize>(self) -> (r: Truncated<LEN>)
        ensures
            r.spec_shown() == self@,
    {
        Truncated { shown: self }
    }
}

} // verus!
