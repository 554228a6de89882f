//! The rope that holds a document's text, and what this library relies on of
//! it.
//!
//! Nothing in this file is proved: each function states, over the model of
//! `crate::text`, what the rope's documentation says of the call it makes.

use crate::text::{breaks_before, byte_offset, insert_at, line_count, line_start, remove_range};
use vstd::prelude::*;
use vstd::string::StringSliceAdditionalSpecFns;
use vstd::utf8::encode_utf8;

verus! {

#[verifier::external_type_specification]
#[verifier::external_body]
pub struct ExRope(ropey::Rope);

/// The characters that a rope holds, in order.
pub uninterp spec fn rope_chars(r: ropey::Rope) -> Seq<char>;

/// `Rope::new`: a rope that holds no character.
#[verifier::external_body]
pub(crate) fn rope_new() -> (r: ropey::Rope)
    ensures
        rope_chars(r) == Seq::<char>::empty(),
{
    ropey::Rope::new()
}

/// `Rope::from_str`: a rope that holds the characters of `text`.
#[verifier::external_body]
pub(crate) fn rope_from_str(text: &str) -> (r: ropey::Rope)
    ensures
        rope_chars(r) == text@,
{
    ropey::Rope::from_str(text)
}

/// `Rope::clone`: a rope that holds the same characters and shares no edit
/// with the one it was made from.
#[verifier::external_body]
pub(crate) fn rope_clone(r: &ropey::Rope) -> (copy: ropey::Rope)
    ensures
        rope_chars(copy) == rope_chars(*r),
{
    r.clone()
}

/// `Rope::len_chars`: the number of characters.
#[verifier::external_body]
pub(crate) fn rope_len_chars(r: &ropey::Rope) -> (n: usize)
    ensures
        n == rope_chars(*r).len(),
{
    r.len_chars()
}

/// `Rope::len_bytes`: the number of bytes that the characters take in UTF-8.
#[verifier::external_body]
pub(crate) fn rope_len_bytes(r: &ropey::Rope) -> (n: usize)
    ensures
        n == encode_utf8(rope_chars(*r)).len(),
{
    r.len_bytes()
}

/// `Rope::len_lines`: one more than the number of line breaks.
#[verifier::external_body]
pub(crate) fn rope_len_lines(r: &ropey::Rope) -> (n: usize)
    ensures
        n == line_count(rope_chars(*r)),
{
    r.len_lines()
}

/// `Rope::insert`: puts `text` before the character at `at`.  It panics where
/// `at` lies behind the end, which `requires` leaves out.
#[verifier::external_body]
pub(crate) fn rope_insert(r: &mut ropey::Rope, at: usize, text: &str)
    requires
        at <= rope_chars(*old(r)).len(),
    ensures
        rope_chars(*final(r)) == insert_at(rope_chars(*old(r)), at as int, text@),
{
    r.insert(at, text)
}

/// `Rope::insert_char`: puts `ch` before the character at `at`.  It panics
/// where `at` lies behind the end.
#[verifier::external_body]
pub(crate) fn rope_insert_char(r: &mut ropey::Rope, at: usize, ch: char)
    requires
        at <= rope_chars(*old(r)).len(),
    ensures
        rope_chars(*final(r)) == insert_at(rope_chars(*old(r)), at as int, seq![ch]),
{
    r.insert_char(at, ch)
}

/// `Rope::remove`: takes out the characters from `from` up to `to`.  It panics
/// where `from` lies behind `to` or `to` behind the end.
#[verifier::external_body]
pub(crate) fn rope_remove(r: &mut ropey::Rope, from: usize, to: usize)
    requires
        from <= to <= rope_chars(*old(r)).len(),
    ensures
        rope_chars(*final(r)) == remove_range(rope_chars(*old(r)), from as int, to as int),
{
    r.remove(from..to)
}

/// `Rope::char_to_byte`: the byte index at which the character at `at`
/// starts.  It panics where `at` lies behind the end.
#[verifier::external_body]
pub(crate) fn rope_char_to_byte(r: &ropey::Rope, at: usize) -> (b: usize)
    requires
        at <= rope_chars(*r).len(),
    ensures
        b == byte_offset(rope_chars(*r), at as int),
{
    r.char_to_byte(at)
}

/// `Rope::char_to_line`: the number of line breaks that end before the
/// character at `at`.  It panics where `at` lies behind the end.
#[verifier::external_body]
pub(crate) fn rope_char_to_line(r: &ropey::Rope, at: usize) -> (line: usize)
    requires
        at <= rope_chars(*r).len(),
    ensures
        line == breaks_before(rope_chars(*r), at as int),
{
    r.char_to_line(at)
}

/// `Rope::try_line_to_char`: the index of the first character of a line; for
/// the line one past the last, the number of characters; behind that, nothing.
#[verifier::external_body]
pub(crate) fn rope_line_to_char(r: &ropey::Rope, line: usize) -> (at: Option<usize>)
    ensures
        line <= line_count(rope_chars(*r)) ==> at is Some && at->0 == line_start(
            rope_chars(*r),
            line as int,
        ),
        line > line_count(rope_chars(*r)) ==> at is None,
{
    r.try_line_to_char(line).ok()
}

/// `Rope::char`: the character at `at`.  It panics where `at` is not before
/// the end.
#[verifier::external_body]
pub(crate) fn rope_char(r: &ropey::Rope, at: usize) -> (c: char)
    requires
        at < rope_chars(*r).len(),
    ensures
        c == rope_chars(*r)[at as int],
{
    r.char(at)
}

/// `Rope::slice` and the `Display` of the slice: the characters from `from` up
/// to `to`, as a string.  The slice panics where `from` lies behind `to` or
/// `to` behind the end.
#[verifier::external_body]
pub(crate) fn rope_substring(r: &ropey::Rope, from: usize, to: usize) -> (s: String)
    requires
        from <= to <= rope_chars(*r).len(),
    ensures
        s@ == rope_chars(*r).subrange(from as int, to as int),
{
    r.slice(from..to).to_string()
}

/// `RopeSlice::as_str` of such a slice: the same characters without a copy,
/// where the rope happens to hold them in one piece.
#[verifier::external_body]
pub(crate) fn rope_str<'a>(r: &'a ropey::Rope, from: usize, to: usize) -> (s: Option<&'a str>)
    requires
        from <= to <= rope_chars(*r).len(),
    ensures
        s matches Some(t) ==> t@ == rope_chars(*r).subrange(from as int, to as int),
{
    r.slice(from..to).as_str()
}

/// `Rope::chunk_at_byte`: a piece of the text that holds the byte at `at`, or
/// ends there, with the byte index at which the piece starts.  It panics where
/// `at` lies behind the end.
#[verifier::external_body]
pub(crate) fn rope_chunk_at_byte<'a>(r: &'a ropey::Rope, at: usize) -> (piece: (&'a str, usize))
    requires
        at <= encode_utf8(rope_chars(*r)).len(),
    ensures
        piece.1 <= at <= piece.1 + piece.0.spec_bytes().len(),
        piece.1 + piece.0.spec_bytes().len() <= encode_utf8(rope_chars(*r)).len(),
        piece.0.spec_bytes() == encode_utf8(rope_chars(*r)).subrange(
            piece.1 as int,
            piece.1 + piece.0.spec_bytes().len(),
        ),
{
    let (chunk, start, _, _) = r.chunk_at_byte(at);
    (chunk, start)
}

/// The byte offset `at` lies between two characters of the text, before the
/// first or behind the last: so many bytes some number of its first
/// characters take.
pub open spec fn between_chars(text: Seq<char>, at: int) -> bool {
    exists|n: int| 0 <= n <= text.len() && #[trigger] byte_offset(text, n) == at
}

/// `Rope::get_byte_slice` and the `Display` of the slice: the text between
/// two byte offsets.  As `Rope::byte_slice` is documented, there is such a
/// slice unless the start lies behind the end, the end behind the text, or
/// an offset within a character.
#[verifier::external_body]
pub(crate) fn rope_byte_substring(r: &ropey::Rope, from: usize, to: usize) -> (s: Option<String>)
    ensures
        s.is_some() == (from <= to && between_chars(rope_chars(*r), from as int) && between_chars(
            rope_chars(*r),
            to as int,
        )),
        s matches Some(t) ==> from <= to <= encode_utf8(rope_chars(*r)).len() && encode_utf8(t@)
            == encode_utf8(rope_chars(*r)).subrange(from as int, to as int),
{
    r.get_byte_slice(from..to).map(|slice| slice.to_string())
}

} // verus!
