//! The rope store behind [`crate::editor::buffer::Buffer`]: `ropey::Rope`,
//! declared for Verus, with the methods the buffer calls. Each method's
//! contract is what ropey's documentation and source state, its line
//! indexing included (ropey's default Unicode line breaks); ropey panics on
//! out-of-range indices, which the `requires` clauses rule out.

use ropey::Rope;
use vstd::prelude::*;

verus! {

#[verifier::external_type_specification]
#[verifier::external_body]
pub struct ExRope(Rope);

/// The chars a rope holds, in order.
pub uninterp spec fn rope_text(r: Rope) -> Seq<char>;

/// A line starts at char `i` (`0 < i <= t.len()`): the char before it ends
/// a line break, as ropey counts them by default: LF, VT, FF, NEL, LS, PS,
/// or a CR not followed by an LF (a CRLF is one break).
pub open spec fn line_starts_at(t: Seq<char>, i: int) -> bool {
    &&& 0 < i <= t.len()
    &&& {
        let c = t[i - 1];
        ||| c == '\n'
        ||| c == '\u{0B}'
        ||| c == '\u{0C}'
        ||| c == '\u{85}'
        ||| c == '\u{2028}'
        ||| c == '\u{2029}'
        ||| (c == '\r' && !(i < t.len() && t[i] == '\n'))
    }
}

/// How many lines start at or before char `i`: line 0 at char 0, and one
/// after each line break.
pub open spec fn lines_upto(t: Seq<char>, i: int) -> nat
    decreases i,
{
    if i <= 0 {
        1
    } else {
        lines_upto(t, i - 1) + if line_starts_at(t, i) {
            1nat
        } else {
            0nat
        }
    }
}

/// `Rope::len_lines` as a function of the text: one more than the number of
/// line breaks.
pub open spec fn rope_line_count(text: Seq<char>) -> nat {
    lines_upto(text, text.len() as int)
}

/// `Rope::line_to_char` as a function of the text: where line `line`
/// starts — 0 for the first line, right after its line break for a later
/// one, and the end of the text for the line one past the last.
pub open spec fn rope_line_start(text: Seq<char>, line: nat) -> nat {
    if line == 0 {
        0
    } else if line >= rope_line_count(text) {
        text.len()
    } else {
        (choose|i: int| 0 < i <= text.len() && line_starts_at(text, i) && lines_upto(text, i) == line
            + 1) as nat
    }
}

/// `Rope::char_to_line` as a function of the text: the last line that
/// starts at or before char `idx` (an index between the CR and the LF of a
/// CRLF belongs to the line the CRLF ends).
pub open spec fn rope_char_line(text: Seq<char>, idx: nat) -> nat {
    (lines_upto(text, idx as int) - 1) as nat
}

/// `line_text` is line `line` of `t`: the chars from the start of that line
/// to the start of the next.
pub open spec fn is_line_text(t: Seq<char>, line: nat, line_text: Seq<char>) -> bool {
    &&& rope_line_start(t, line) <= rope_line_start(t, line + 1) <= t.len()
    &&& line_text == line_of(t, line)
}

/// The chars of line `line` of `t`, its line break included.
pub open spec fn line_of(t: Seq<char>, line: nat) -> Seq<char> {
    t.subrange(rope_line_start(t, line) as int, rope_line_start(t, line + 1) as int)
}

/// `Rope`'s `Clone`: the copy holds the same chars.
pub assume_specification[ <Rope as Clone>::clone ](r: &Rope) -> (c: Rope)
    ensures
        rope_text(c) == rope_text(*r),
;

/// `Rope::new`: an empty rope.
#[verifier::external_body]
pub(crate) fn rope_new() -> (r: Rope)
    ensures
        rope_text(r) == Seq::<char>::empty(),
{
    Rope::new()
}

/// `Rope::from_str`: a rope holding the chars of `s`.
#[verifier::external_body]
pub(crate) fn rope_from_str(s: &str) -> (r: Rope)
    ensures
        rope_text(r) == s@,
{
    Rope::from_str(s)
}

/// `Rope::insert`: `s` is inserted before char `idx`.
#[verifier::external_body]
pub(crate) fn rope_insert(r: &mut Rope, idx: usize, s: &str)
    requires
        idx <= rope_text(*old(r)).len(),
    ensures
        rope_text(*final(r)) == rope_text(*old(r)).take(idx as int) + s@ + rope_text(
            *old(r),
        ).skip(idx as int),
{
    r.insert(idx, s)
}

/// `Rope::remove`: the chars `start..end` are removed.
#[verifier::external_body]
pub(crate) fn rope_remove(r: &mut Rope, start: usize, end: usize)
    requires
        start <= end <= rope_text(*old(r)).len(),
    ensures
        rope_text(*final(r)) == rope_text(*old(r)).take(start as int) + rope_text(
            *old(r),
        ).skip(end as int),
{
    r.remove(start..end)
}

/// `Rope::slice` turned into a `String`: the chars `start..end`.
#[verifier::external_body]
pub(crate) fn rope_slice_string(r: &Rope, start: usize, end: usize) -> (s: String)
    requires
        start <= end <= rope_text(*r).len(),
    ensures
        s@ == rope_text(*r).subrange(start as int, end as int),
{
    r.slice(start..end).into()
}

/// `Rope::to_string`: all the chars.
#[verifier::external_body]
pub(crate) fn rope_to_string(r: &Rope) -> (s: String)
    ensures
        s@ == rope_text(*r),
{
    r.to_string()
}

/// `Rope::len_chars`.
#[verifier::external_body]
pub(crate) fn rope_len_chars(r: &Rope) -> (n: usize)
    ensures
        n == rope_text(*r).len(),
{
    r.len_chars()
}

/// `Rope::len_lines`: there is always at least one line.
#[verifier::external_body]
pub(crate) fn rope_len_lines(r: &Rope) -> (n: usize)
    ensures
        n == rope_line_count(rope_text(*r)),
        n >= 1,
{
    r.len_lines()
}

/// `Rope::line_to_char`: line 0 starts at char 0, and the line one past the
/// end starts one past the last char.
#[verifier::external_body]
pub(crate) fn rope_line_to_char(r: &Rope, line: usize) -> (idx: usize)
    requires
        line <= rope_line_count(rope_text(*r)),
    ensures
        idx == rope_line_start(rope_text(*r), line as nat),
        idx <= rope_text(*r).len(),
        line == 0 ==> idx == 0,
        line == rope_line_count(rope_text(*r)) ==> idx == rope_text(*r).len(),
{
    r.line_to_char(line)
}

/// `Rope::char_to_line`: the line holding char `idx` (the last line for one
/// past the end), which starts at or before `idx`.
#[verifier::external_body]
pub(crate) fn rope_char_to_line(r: &Rope, idx: usize) -> (line: usize)
    requires
        idx <= rope_text(*r).len(),
    ensures
        line == rope_char_line(rope_text(*r), idx as nat),
        line < rope_line_count(rope_text(*r)),
        rope_line_start(rope_text(*r), line as nat) <= idx,
{
    r.char_to_line(idx)
}

/// `Rope::line` turned into a `String`: the chars from the start of the line
/// to the start of the next, line break included.
#[verifier::external_body]
pub(crate) fn rope_line_string(r: &Rope, line: usize) -> (text: String)
    requires
        line < rope_line_count(rope_text(*r)),
    ensures
        is_line_text(rope_text(*r), line as nat, text@),
{
    r.line(line).into()
}

} // verus!
