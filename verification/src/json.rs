//! Rendering of the structured text segments the protocol carries.
//!
//! The codec treats the header, parent header, metadata and content
//! segments as opaque bytes; what those bytes are — flat JSON objects with
//! string fields — is rendered here, over the UTF-8 bytes of the values.
//! Escaping works byte-wise: the bytes needing escapes (quote, backslash,
//! controls) are ASCII, and UTF-8 continuation bytes can never collide
//! with them.

use vstd::prelude::*;

use crate::text::ascii_bytes;
use crate::text::push_ascii;

verus! {

/// The lowercase hex digit of a value below sixteen.
pub open spec fn hex_digit(d: int) -> u8
    recommends
        0 <= d < 16,
{
    if d < 10 {
        (48 + d) as u8
    } else {
        (87 + d) as u8
    }
}

/// How one byte of a JSON string value appears inside the quotes: quote
/// and backslash get a backslash escape, control bytes a `\u00XX` escape,
/// and everything else stands as itself.
pub open spec fn escape_byte(b: u8) -> Seq<u8> {
    if b == 34 {
        seq![92u8, 34u8]
    } else if b == 92 {
        seq![92u8, 92u8]
    } else if b < 32 {
        seq![92u8, 117u8, 48u8, 48u8, hex_digit(b as int / 16), hex_digit(b as int % 16)]
    } else {
        seq![b]
    }
}

/// The escaped form of a whole string value.
pub open spec fn spec_escaped(s: Seq<u8>) -> Seq<u8>
    decreases s.len(),
{
    if s.len() == 0 {
        Seq::empty()
    } else {
        escape_byte(s[0]) + spec_escaped(s.skip(1))
    }
}

/// Escaping distributes over concatenation.
pub proof fn lemma_escaped_append(a: Seq<u8>, b: Seq<u8>)
    ensures
        spec_escaped(a + b) == spec_escaped(a) + spec_escaped(b),
    decreases a.len(),
{
    if a.len() == 0 {
        assert(a + b =~= b);
        assert(spec_escaped(a) + spec_escaped(b) =~= spec_escaped(b));
    } else {
        assert((a + b).skip(1) =~= a.skip(1) + b);
        lemma_escaped_append(a.skip(1), b);
        assert(spec_escaped(a + b) =~= spec_escaped(a) + spec_escaped(b));
    }
}

/// The escaped form of one byte on its own.
proof fn lemma_escaped_one(x: u8)
    ensures
        spec_escaped(seq![x]) == escape_byte(x),
{
    assert(seq![x].skip(1) =~= Seq::<u8>::empty());
    assert(spec_escaped(seq![x].skip(1)) == spec_escaped(Seq::<u8>::empty()));
    assert(spec_escaped(Seq::<u8>::empty()) == Seq::<u8>::empty());
    assert(seq![x][0] == x);
    assert(spec_escaped(seq![x]) == escape_byte(x) + Seq::<u8>::empty());
    assert(escape_byte(x) + Seq::<u8>::empty() =~= escape_byte(x));
}

/// Appends the escaped form of `s`.
pub fn push_escaped(out: &mut Vec<u8>, s: &Vec<u8>)
    ensures
        final(out)@ == old(out)@ + spec_escaped(s@),
{
    let mut i: usize = 0;
    while i < s.len()
        invariant
            i <= s@.len(),
            out@ == old(out)@ + spec_escaped(s@.take(i as int)),
        decreases s@.len() - i,
    {
        let b = s[i];
        proof {
            assert(s@.take(i + 1) =~= s@.take(i as int) + seq![b]);
            lemma_escaped_append(s@.take(i as int), seq![b]);
            lemma_escaped_one(b);
        }
        if b == 34 {
            out.push(92);
            out.push(34);
        } else if b == 92 {
            out.push(92);
            out.push(92);
        } else if b < 32 {
            out.push(92);
            out.push(117);
            out.push(48);
            out.push(48);
            out.push(if b / 16 < 10 {
                48 + b / 16
            } else {
                87 + b / 16
            });
            out.push(if b % 16 < 10 {
                48 + b % 16
            } else {
                87 + b % 16
            });
        } else {
            out.push(b);
        }
        proof {
            assert(out@ =~= old(out)@ + spec_escaped(s@.take(i + 1)));
        }
        i = i + 1;
    }
    proof {
        assert(s@.take(s@.len() as int) =~= s@);
    }
}

/// One string field of a flat object: the quoted key, a colon, and the
/// quoted escaped value.
pub open spec fn spec_field(key: Seq<char>, value: Seq<u8>) -> Seq<u8> {
    seq![34u8] + ascii_bytes(key) + seq![34u8, 58u8, 34u8] + spec_escaped(value) + seq![34u8]
}

/// Appends `"key":"value"` with the value escaped.
pub fn push_field(out: &mut Vec<u8>, key: &str, value: &Vec<u8>)
    requires
        vstd::utf8::is_ascii_chars(key@),
    ensures
        final(out)@ == old(out)@ + spec_field(key@, value@),
{
    out.push(34);
    push_ascii(out, key);
    out.push(34);
    out.push(58);
    out.push(34);
    push_escaped(out, value);
    out.push(34);
    proof {
        assert(final(out)@ =~= old(out)@ + spec_field(key@, value@));
    }
}

/// An empty JSON object, the serialized form of "nothing here": the
/// parent header of an unsolicited message, or empty metadata.
pub open spec fn spec_empty_object() -> Seq<u8> {
    seq![123u8, 125u8]
}

/// Renders `{}`.
pub fn empty_object() -> (r: Vec<u8>)
    ensures
        r@ == spec_empty_object(),
{
    let mut out: Vec<u8> = Vec::new();
    out.push(123);
    out.push(125);
    proof {
        assert(out@ =~= spec_empty_object());
    }
    out
}

} // verus!
