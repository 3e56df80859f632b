//! The trusted boundary around `ropey`, the rope that backs the buffer.
//!
//! The rope's contents are modelled as a `Seq<char>` by [`rope_chars`]; every
//! wrapper states what a `ropey` call does to that sequence, as documented by
//! the crate. The crate is built without its optional line-break features, so
//! a line break is exactly a `'\n'`: `ropey` then splits lines precisely as
//! [`crate::lines::lines_of`] does (a CRLF pair breaks after its `'\n'`, and
//! a lone carriage return is not a break).

use vstd::prelude::*;
use crate::lines::{line_at, line_count, line_start};

verus! {

#[verifier::external_type_specification]
#[verifier::external_body]
pub struct ExRope(ropey::Rope);

/// The characters a rope holds, in order.
pub uninterp spec fn rope_chars(r: ropey::Rope) -> Seq<char>;

/// Relies on `ropey::Rope::from_str`: builds a rope holding the slice's text.
#[verifier::external_body]
pub(crate) fn rope_from_str(s: &str) -> (r: ropey::Rope)
    ensures
        rope_chars(r) == s@,
{
    ropey::Rope::from_str(s)
}

/// Relies on `ropey::Rope::len_chars`: the number of chars in the rope.
#[verifier::external_body]
pub(crate) fn rope_len_chars(r: &ropey::Rope) -> (n: usize)
    ensures
        n == rope_chars(*r).len(),
{
    r.len_chars()
}

/// Relies on `ropey::Rope::len_lines`: the number of lines, counting the
/// empty line after a trailing `'\n'`.
#[verifier::external_body]
pub(crate) fn rope_len_lines(r: &ropey::Rope) -> (n: usize)
    ensures
        n == line_count(rope_chars(*r)),
{
    r.len_lines()
}

/// Relies on `ropey::Rope::char_to_line`: the line holding a char index; a
/// line's own `'\n'` still belongs to it, and the one-past-the-end index
/// belongs to the last line.
#[verifier::external_body]
pub(crate) fn rope_char_to_line(r: &ropey::Rope, char_idx: usize) -> (n: usize)
    requires
        char_idx <= rope_chars(*r).len(),
    ensures
        n == crate::lines::nl_count(rope_chars(*r).take(char_idx as int)),
{
    r.char_to_line(char_idx)
}

/// Relies on `ropey::Rope::line_to_char`: the char index at which a line
/// starts.
#[verifier::external_body]
pub(crate) fn rope_line_to_char(r: &ropey::Rope, line_idx: usize) -> (n: usize)
    requires
        line_idx < line_count(rope_chars(*r)),
    ensures
        n == line_start(rope_chars(*r), line_idx as int),
{
    r.line_to_char(line_idx)
}

/// Relies on `ropey::Rope::line` (and `RopeSlice::to_string`): the text of a
/// line, including its trailing `'\n'` if it has one.
#[verifier::external_body]
pub(crate) fn rope_line(r: &ropey::Rope, line_idx: usize) -> (s: String)
    requires
        line_idx < line_count(rope_chars(*r)),
    ensures
        s@ == line_at(rope_chars(*r), line_idx as int),
{
    r.line(line_idx).to_string()
}

/// Relies on `ropey::Rope::insert`: splices text in at a char index.
#[verifier::external_body]
pub(crate) fn rope_insert(r: &mut ropey::Rope, char_idx: usize, text: &str)
    requires
        char_idx <= rope_chars(*old(r)).len(),
    ensures
        rope_chars(*final(r)) == rope_chars(*old(r)).take(char_idx as int) + text@ + rope_chars(
            *old(r),
        ).skip(char_idx as int),
{
    r.insert(char_idx, text)
}

/// Relies on `ropey::Rope::remove`: removes the chars of a half-open range.
#[verifier::external_body]
pub(crate) fn rope_remove(r: &mut ropey::Rope, start: usize, end: usize)
    requires
        start <= end <= rope_chars(*old(r)).len(),
    ensures
        rope_chars(*final(r)) == rope_chars(*old(r)).take(start as int) + rope_chars(
            *old(r),
        ).skip(end as int),
{
    r.remove(start..end)
}

/// Relies on `ropey::Rope::slice` (and `RopeSlice::to_string`): the chars of
/// a half-open range, as a string.
#[verifier::external_body]
pub(crate) fn rope_slice_string(r: &ropey::Rope, start: usize, end: usize) -> (s: String)
    requires
        start <= end <= rope_chars(*r).len(),
    ensures
        s@ == rope_chars(*r).subrange(start as int, end as int),
{
    r.slice(start..end).to_string()
}

/// Relies on `ropey::Rope`'s `Display` impl: the whole text as a string.
#[verifier::external_body]
pub(crate) fn rope_to_string(r: &ropey::Rope) -> (s: String)
    ensures
        s@ == rope_chars(*r),
{
    r.to_string()
}

} // verus!
