//! The calls into `ropey` that the buffer makes, with what `ropey`
//! documents of them, stated over the bytes a rope holds.
//!
//! Lines are always counted with `LineType::LF_CR`: LF, CR and CRLF are line
//! breaks (see `text_model`).
use ropey::{LineType, Rope};
use vstd::prelude::*;
use vstd::utf8::*;
use crate::text_model::{
    breaks_before, char_boundary, line_count, line_start, splice_insert, splice_remove,
};

verus! {

#[verifier::external_type_specification]
#[verifier::external_body]
pub struct ExRope(Rope);

/// The UTF-8 bytes that a rope holds.
pub uninterp spec fn rope_bytes(r: Rope) -> Seq<u8>;

/// `Rope::new`: an empty rope.
#[verifier::external_body]
pub(crate) fn rope_new() -> (r: Rope)
    ensures
        rope_bytes(r) == Seq::<u8>::empty(),
{
    Rope::new()
}

/// `Rope::from_str`: a rope holding the bytes of `s`.
#[verifier::external_body]
pub(crate) fn rope_from_str(s: &str) -> (r: Rope)
    ensures
        rope_bytes(r) == encode_utf8(s@),
{
    Rope::from_str(s)
}

/// `Rope::len`: the length of the text in bytes.
#[verifier::external_body]
pub(crate) fn rope_len(r: &Rope) -> (n: usize)
    ensures
        n == rope_bytes(*r).len(),
{
    r.len()
}

/// `Rope::len_lines` with LF, CR and CRLF as breaks: the number of breaks
/// plus one.
#[verifier::external_body]
pub(crate) fn rope_len_lines(r: &Rope) -> (n: usize)
    ensures
        n == line_count(rope_bytes(*r)),
{
    r.len_lines(LineType::LF_CR)
}

/// `Rope::line_to_byte_idx`: the byte where line `l` starts; one past the
/// last line gives the length of the text. Panics beyond that.
#[verifier::external_body]
pub(crate) fn rope_line_to_byte(r: &Rope, l: usize) -> (n: usize)
    requires
        l <= line_count(rope_bytes(*r)),
    ensures
        n == line_start(rope_bytes(*r), l as nat),
{
    r.line_to_byte_idx(l, LineType::LF_CR)
}

/// `Rope::byte_to_line_idx`: the number of line breaks before byte `b`.
/// Panics when `b` is past the end.
#[verifier::external_body]
pub(crate) fn rope_byte_to_line(r: &Rope, b: usize) -> (n: usize)
    requires
        b <= rope_bytes(*r).len(),
    ensures
        n == breaks_before(rope_bytes(*r), b as int),
{
    r.byte_to_line_idx(b, LineType::LF_CR)
}

/// `Rope::byte`: the byte at index `i`. Panics when `i` is out of bounds.
#[verifier::external_body]
pub(crate) fn rope_byte(r: &Rope, i: usize) -> (b: u8)
    requires
        i < rope_bytes(*r).len(),
    ensures
        b == rope_bytes(*r)[i as int],
{
    r.byte(i)
}

/// `Rope::insert`: inserts the bytes of `s` at byte `i`. Panics when `i` is
/// past the end or inside a character.
#[verifier::external_body]
pub(crate) fn rope_insert(r: &mut Rope, i: usize, s: &str)
    requires
        char_boundary(rope_bytes(*old(r)), i as int),
    ensures
        rope_bytes(*final(r)) == splice_insert(rope_bytes(*old(r)), i as int, encode_utf8(s@)),
{
    r.insert(i, s)
}

/// `Rope::remove`: removes the bytes `[start, end)`. Panics when the range
/// is reversed, past the end, or its ends are inside characters.
#[verifier::external_body]
pub(crate) fn rope_remove(r: &mut Rope, start: usize, end: usize)
    requires
        start <= end,
        char_boundary(rope_bytes(*old(r)), start as int),
        char_boundary(rope_bytes(*old(r)), end as int),
    ensures
        rope_bytes(*final(r)) == splice_remove(rope_bytes(*old(r)), start as int, end as int),
{
    r.remove(start..end)
}

/// `Rope::slice` followed by `to_string`: the text of bytes `[start, end)`.
/// Panics on the same ranges as `rope_remove`.
#[verifier::external_body]
pub(crate) fn rope_slice_string(r: &Rope, start: usize, end: usize) -> (s: String)
    requires
        start <= end,
        char_boundary(rope_bytes(*r), start as int),
        char_boundary(rope_bytes(*r), end as int),
    ensures
        encode_utf8(s@) == rope_bytes(*r).subrange(start as int, end as int),
{
    r.slice(start..end).to_string()
}

/// `Rope::to_string`: the whole text.
#[verifier::external_body]
pub(crate) fn rope_to_string(r: &Rope) -> (s: String)
    ensures
        encode_utf8(s@) == rope_bytes(*r),
{
    r.to_string()
}

} // verus!
