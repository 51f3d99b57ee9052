use vstd::prelude::*;

use crate::editor::buffer::Buffer;
use crate::geometry::Position;
use crate::keymap::motion::{buffer_line_chars, is_word, is_ws, line_chars, pos};
use crate::text::{is_alphanumeric, is_whitespace};

verus! {

/// Text object types for vim `i`/`a` selections.
#[derive(Debug, Clone, Copy, PartialEq, Eq, Structural)]
pub enum TextObject {
    InnerWord,
    AroundWord,
    InnerParen,
    AroundParen,
    InnerBracket,
    AroundBracket,
    InnerBrace,
    AroundBrace,
    InnerQuote(char),
    AroundQuote(char),
}

/// Back from `i` while the char before has the same wordness `w`.
pub open spec fn back_same(l: Seq<char>, i: int, w: bool) -> int
    decreases i,
{
    if i > 0 && is_word(l[i - 1]) == w {
        back_same(l, i - 1, w)
    } else {
        i
    }
}

/// Forward from `i` while the next char has the same wordness `w`.
pub open spec fn fwd_same(l: Seq<char>, i: int, w: bool) -> int
    decreases l.len() - i,
{
    if i >= 0 && i + 1 < l.len() && is_word(l[i + 1]) == w {
        fwd_same(l, i + 1, w)
    } else {
        i
    }
}

proof fn lemma_fwd_same_bound(l: Seq<char>, i: int, w: bool)
    requires
        0 <= i < l.len(),
    ensures
        i <= fwd_same(l, i, w) < l.len(),
    decreases l.len() - i,
{
    if i + 1 < l.len() && is_word(l[i + 1]) == w {
        lemma_fwd_same_bound(l, i + 1, w);
    }
}

/// Forward from `i` while the next char is whitespace.
pub open spec fn fwd_ws(l: Seq<char>, i: int) -> int
    decreases l.len() - i,
{
    if i >= 0 && i + 1 < l.len() && is_ws(l[i + 1]) {
        fwd_ws(l, i + 1)
    } else {
        i
    }
}

/// The run of chars around `pos` with the same wordness as the char under it.
pub open spec fn spec_inner_word(p: Position, t: Seq<char>) -> Option<(Position, Position)> {
    match line_chars(t, p.line as nat) {
        None => None,
        Some(l) => if p.col >= l.len() {
            None
        } else {
            let w = is_word(l[p.col as int]);
            Some(
                (
                    pos(p.line as int, back_same(l, p.col as int, w)),
                    pos(p.line as int, fwd_same(l, p.col as int, w)),
                ),
            )
        },
    }
}

/// The inner word and the whitespace after it.
pub open spec fn spec_around_word(p: Position, t: Seq<char>) -> Option<(Position, Position)> {
    match spec_inner_word(p, t) {
        None => None,
        Some((s, e)) => match line_chars(t, p.line as nat) {
            None => None,
            Some(l) => Some((s, pos(p.line as int, fwd_ws(l, e.col as int)))),
        },
    }
}

/// Scanning down from `i` for the opening delimiter that encloses column
/// `col`, skipping nested pairs.
pub open spec fn open_scan(l: Seq<char>, open: char, close: char, col: int, i: int, depth: int) -> Option<int>
    decreases i + 1,
{
    if i < 0 || i >= l.len() {
        None
    } else {
        let d1 = depth + if l[i] == close && i != col {
            1int
        } else {
            0int
        };
        if l[i] == open {
            if d1 == 0 {
                Some(i)
            } else {
                open_scan(l, open, close, col, i - 1, d1 - 1)
            }
        } else {
            open_scan(l, open, close, col, i - 1, d1)
        }
    }
}

/// Scanning up from `i` for the closing delimiter that brings the depth back
/// to zero.
pub open spec fn close_scan(l: Seq<char>, open: char, close: char, i: int, depth: int) -> Option<int>
    decreases l.len() - i,
{
    if i < 0 || i >= l.len() {
        None
    } else {
        let d1 = depth + if l[i] == open {
            1int
        } else {
            0int
        };
        if l[i] == close {
            if d1 - 1 == 0 {
                Some(i)
            } else {
                close_scan(l, open, close, i + 1, d1 - 1)
            }
        } else {
            close_scan(l, open, close, i + 1, d1)
        }
    }
}

/// The delimited region around `pos`: with the delimiters, or inside them.
pub open spec fn spec_surrounding(p: Position, t: Seq<char>, open: char, close: char, inclusive: bool) -> Option<(Position, Position)> {
    match line_chars(t, p.line as nat) {
        None => None,
        Some(l) => {
            let start = if (p.col as int) < l.len() - 1 {
                p.col as int
            } else {
                l.len() - 1
            };
            match open_scan(l, open, close, p.col as int, start, 0) {
                None => None,
                Some(o) => match close_scan(l, open, close, o, 0) {
                    None => None,
                    Some(c) => if inclusive {
                        Some((pos(p.line as int, o), pos(p.line as int, c)))
                    } else {
                        Some(
                            (
                                pos(p.line as int, o + 1),
                                pos(p.line as int, if c >= 1 { c - 1 } else { 0 }),
                            ),
                        )
                    },
                },
            }
        },
    }
}

/// Scanning the line left to right for the quote pair around column `col`:
/// an opening quote at or before it and the next quote at or after it.
pub open spec fn quote_scan(l: Seq<char>, q: char, col: int, i: int, start: int, in_quotes: bool) -> Option<(int, int)>
    decreases l.len() - i,
{
    if i < 0 || i >= l.len() {
        None
    } else if l[i] == q {
        if !in_quotes {
            if i <= col {
                quote_scan(l, q, col, i + 1, i, true)
            } else {
                quote_scan(l, q, col, i + 1, start, false)
            }
        } else if i >= col {
            Some((start, i))
        } else {
            quote_scan(l, q, col, i + 1, start, false)
        }
    } else {
        quote_scan(l, q, col, i + 1, start, in_quotes)
    }
}

pub open spec fn spec_quotes(p: Position, t: Seq<char>, q: char, inclusive: bool) -> Option<(Position, Position)> {
    match line_chars(t, p.line as nat) {
        None => None,
        Some(l) => match quote_scan(l, q, p.col as int, 0, 0, false) {
            None => None,
            Some((s, e)) => if inclusive {
                Some((pos(p.line as int, s), pos(p.line as int, e)))
            } else {
                Some((pos(p.line as int, s + 1), pos(p.line as int, if e >= 1 { e - 1 } else { 0 })))
            },
        },
    }
}

/// The delimiters of a bracket object, and whether they are kept.
pub open spec fn spec_range(o: TextObject, p: Position, t: Seq<char>) -> Option<(Position, Position)> {
    match o {
        TextObject::InnerWord => spec_inner_word(p, t),
        TextObject::AroundWord => spec_around_word(p, t),
        TextObject::InnerParen => spec_surrounding(p, t, '(', ')', false),
        TextObject::AroundParen => spec_surrounding(p, t, '(', ')', true),
        TextObject::InnerBracket => spec_surrounding(p, t, '[', ']', false),
        TextObject::AroundBracket => spec_surrounding(p, t, '[', ']', true),
        TextObject::InnerBrace => spec_surrounding(p, t, '{', '}', false),
        TextObject::AroundBrace => spec_surrounding(p, t, '{', '}', true),
        TextObject::InnerQuote(q) => spec_quotes(p, t, q, false),
        TextObject::AroundQuote(q) => spec_quotes(p, t, q, true),
    }
}

/// The bracket objects scan the line's chars, which must exist, and count
/// nesting in 32 bits.
pub open spec fn range_requires(o: TextObject, p: Position, t: Seq<char>) -> bool {
    match o {
        TextObject::InnerWord | TextObject::AroundWord | TextObject::InnerQuote(_)
        | TextObject::AroundQuote(_) => true,
        _ => match line_chars(t, p.line as nat) {
            Some(l) => 0 < l.len() < 0x7fff_ffff,
            None => true,
        },
    }
}

fn word(c: char) -> (r: bool)
    ensures
        r == is_word(c),
{
    is_alphanumeric(c) || c == '_'
}

fn inner_word(p: Position, buffer: &Buffer) -> (r: Option<(Position, Position)>)
    ensures
        r == spec_inner_word(p, buffer@),
{
    let chars = buffer_line_chars(buffer, p.line)?;
    if p.col >= chars.len() {
        return None;
    }
    let w = word(chars[p.col]);
    let mut start = p.col;
    while start > 0 && word(chars[start - 1]) == w
        invariant
            start <= p.col < chars@.len(),
            back_same(chars@, p.col as int, w) == back_same(chars@, start as int, w),
        decreases start,
    {
        start = start - 1;
    }
    let n = chars.len();
    let mut end = p.col;
    while end + 1 < n && word(chars[end + 1]) == w
        invariant
            n == chars@.len(),
            p.col <= end < chars@.len(),
            fwd_same(chars@, p.col as int, w) == fwd_same(chars@, end as int, w),
        decreases chars@.len() - end,
    {
        end = end + 1;
    }
    Some((Position::new(p.line, start), Position::new(p.line, end)))
}

fn around_word(p: Position, buffer: &Buffer) -> (r: Option<(Position, Position)>)
    ensures
        r == spec_around_word(p, buffer@),
{
    let (start, end) = inner_word(p, buffer)?;
    let chars = buffer_line_chars(buffer, p.line)?;
    let n = chars.len();
    proof {
        let l = chars@;
        lemma_fwd_same_bound(l, p.col as int, is_word(l[p.col as int]));
    }
    let mut new_end = end.col;
    while new_end + 1 < n && is_whitespace(chars[new_end + 1])
        invariant
            n == chars@.len(),
            new_end < n,
            fwd_ws(chars@, end.col as int) == fwd_ws(chars@, new_end as int),
            end.col <= new_end,
        decreases chars@.len() - new_end,
    {
        new_end = new_end + 1;
    }
    Some((start, Position::new(p.line, new_end)))
}

pub fn find_surrounding(p: Position, buffer: &Buffer, open: char, close: char, include_delimiters: bool) -> (r: Option<(Position, Position)>)
    requires
        match line_chars(buffer@, p.line as nat) {
            Some(l) => 0 < l.len() < 0x7fff_ffff,
            None => true,
        },
    ensures
        r == spec_surrounding(p, buffer@, open, close, include_delimiters),
{
    let chars = buffer_line_chars(buffer, p.line)?;
    let len = chars.len();
    let top = if p.col < len - 1 {
        p.col
    } else {
        len - 1
    };
    let mut depth: i32 = 0;
    let mut open_pos: Option<usize> = None;
    let mut i: usize = top + 1;
    while i > 0
        invariant_except_break
            i <= top + 1,
            top < len == chars@.len() < 0x7fff_ffff,
            -(top + 1 - i) <= depth <= top + 1 - i,
            open_scan(chars@, open, close, p.col as int, top as int, 0) == open_scan(
                chars@,
                open,
                close,
                p.col as int,
                i - 1,
                depth as int,
            ),
            open_pos is None,
        ensures
            match open_pos {
                Some(o) => open_scan(chars@, open, close, p.col as int, top as int, 0) == Some(
                    o as int,
                ) && o < len,
                None => open_scan(chars@, open, close, p.col as int, top as int, 0) is None,
            },
        decreases i,
    {
        let k = i - 1;
        if chars[k] == close && k != p.col {
            depth = depth + 1;
        }
        if chars[k] == open {
            if depth == 0 {
                open_pos = Some(k);
                break;
            }
            depth = depth - 1;
        }
        i = i - 1;
    }
    let open_col = open_pos?;
    depth = 0;
    let mut close_pos: Option<usize> = None;
    let mut j: usize = open_col;
    while j < len
        invariant_except_break
            open_col <= j <= len,
            len == chars@.len() < 0x7fff_ffff,
            -(j - open_col) <= depth <= j - open_col,
            close_scan(chars@, open, close, open_col as int, 0) == close_scan(
                chars@,
                open,
                close,
                j as int,
                depth as int,
            ),
            close_pos is None,
        ensures
            match close_pos {
                Some(c) => close_scan(chars@, open, close, open_col as int, 0) == Some(c as int),
                None => close_scan(chars@, open, close, open_col as int, 0) is None,
            },
        decreases len - j,
    {
        if chars[j] == open {
            depth = depth + 1;
        }
        if chars[j] == close {
            depth = depth - 1;
            if depth == 0 {
                close_pos = Some(j);
                break;
            }
        }
        j = j + 1;
    }
    let close_col = close_pos?;
    if include_delimiters {
        Some((Position::new(p.line, open_col), Position::new(p.line, close_col)))
    } else {
        Some(
            (
                Position::new(p.line, open_col + 1),
                Position::new(p.line, if close_col >= 1 { close_col - 1 } else { 0 }),
            ),
        )
    }
}

fn find_quotes(p: Position, buffer: &Buffer, quote: char, include_quotes: bool) -> (r: Option<(Position, Position)>)
    ensures
        r == spec_quotes(p, buffer@, quote, include_quotes),
{
    let chars = buffer_line_chars(buffer, p.line)?;
    let mut start: usize = 0;
    let mut in_quotes = false;
    let mut i: usize = 0;
    while i < chars.len()
        invariant
            i <= chars@.len(),
            start < chars@.len() || !in_quotes,
            line_chars(buffer@, p.line as nat) == Some(chars@),
            quote_scan(chars@, quote, p.col as int, 0, 0, false) == quote_scan(
                chars@,
                quote,
                p.col as int,
                i as int,
                start as int,
                in_quotes,
            ),
        decreases chars@.len() - i,
    {
        if chars[i] == quote {
            if !in_quotes {
                if i <= p.col {
                    start = i;
                    in_quotes = true;
                }
            } else if i >= p.col {
                return if include_quotes {
                    Some((Position::new(p.line, start), Position::new(p.line, i)))
                } else {
                    Some(
                        (
                            Position::new(p.line, start + 1),
                            Position::new(p.line, if i >= 1 { i - 1 } else { 0 }),
                        ),
                    )
                };
            } else {
                in_quotes = false;
            }
        }
        i = i + 1;
    }
    None
}

impl TextObject {
    /// Returns (start, end) positions for a text object.
    pub fn range(&self, p: Position, buffer: &Buffer) -> (r: Option<(Position, Position)>)
        requires
            range_requires(*self, p, buffer@),
        ensures
            r == spec_range(*self, p, buffer@),
    {
        match self {
            TextObject::InnerWord => inner_word(p, buffer),
            TextObject::AroundWord => around_word(p, buffer),
            TextObject::InnerParen => find_surrounding(p, buffer, '(', ')', false),
            TextObject::AroundParen => find_surrounding(p, buffer, '(', ')', true),
            TextObject::InnerBracket => find_surrounding(p, buffer, '[', ']', false),
            TextObject::AroundBracket => find_surrounding(p, buffer, '[', ']', true),
            TextObject::InnerBrace => find_surrounding(p, buffer, '{', '}', false),
            TextObject::AroundBrace => find_surrounding(p, buffer, '{', '}', true),
            TextObject::InnerQuote(q) => find_quotes(p, buffer, *q, false),
            TextObject::AroundQuote(q) => find_quotes(p, buffer, *q, true),
        }
    }
}

proof fn lemma_open_scan_sound(l: Seq<char>, open: char, close: char, col: int, i: int, depth: int)
    ensures
        open_scan(l, open, close, col, i, depth) matches Some(o) ==> 0 <= o <= i && o < l.len()
            && l[o] == open,
    decreases i + 1,
{
    if 0 <= i < l.len() {
        let d1 = depth + if l[i] == close && i != col {
            1int
        } else {
            0int
        };
        if l[i] == open {
            if d1 != 0 {
                lemma_open_scan_sound(l, open, close, col, i - 1, d1 - 1);
            }
        } else {
            lemma_open_scan_sound(l, open, close, col, i - 1, d1);
        }
    }
}

proof fn lemma_close_scan_sound(l: Seq<char>, open: char, close: char, i: int, depth: int)
    ensures
        close_scan(l, open, close, i, depth) matches Some(c) ==> i <= c < l.len() && 0 <= c
            && l[c] == close,
    decreases l.len() - i,
{
    if 0 <= i < l.len() {
        let d1 = depth + if l[i] == open {
            1int
        } else {
            0int
        };
        if l[i] == close {
            if d1 - 1 != 0 {
                lemma_close_scan_sound(l, open, close, i + 1, d1 - 1);
            }
        } else {
            lemma_close_scan_sound(l, open, close, i + 1, d1);
        }
    }
}

proof fn lemma_open_scan_reaches(l: Seq<char>, open: char, close: char, col: int, i: int, j: int)
    requires
        0 <= j <= i < l.len(),
        l[j] == open,
        open != close,
        forall|m: int| j < m <= i ==> l[m] != open && (l[m] != close || m == col),
    ensures
        open_scan(l, open, close, col, i, 0) == Some(j),
    decreases i - j,
{
    if i > j {
        lemma_open_scan_reaches(l, open, close, col, i - 1, j);
    }
}

proof fn lemma_close_scan_reaches(l: Seq<char>, open: char, close: char, m: int, k: int)
    requires
        0 <= m <= k < l.len(),
        l[k] == close,
        open != close,
        forall|x: int| m <= x < k ==> l[x] != open && l[x] != close,
    ensures
        close_scan(l, open, close, m, 1) == Some(k),
    decreases k - m,
{
    if m < k {
        lemma_close_scan_reaches(l, open, close, m + 1, k);
    }
}

/// The region `s..e` of line `l` is enclosed by a pair of brackets `open`
/// and `close`: it spans them, or lies right inside them.
pub open spec fn enclosed_by(l: Seq<char>, s: int, e: int, open: char, close: char, inclusive: bool) -> bool {
    if inclusive {
        0 <= s < e < l.len() && l[s] == open && l[e] == close
    } else {
        1 <= s && s - 1 < e + 1 < l.len() && l[s - 1] == open && l[e + 1] == close
    }
}

/// The cursor at `col` sits inside the pair of brackets at `j` and `k`,
/// with no bracket of that kind between them.
pub open spec fn inside_simple_pair(l: Seq<char>, col: int, j: int, k: int, open: char, close: char) -> bool {
    &&& 0 <= j <= col <= k < l.len()
    &&& j < k
    &&& l[j] == open
    &&& l[k] == close
    &&& forall|m: int| j < m < k ==> l[m] != open && l[m] != close
}

proof fn lemma_surrounding(p: Position, t: Seq<char>, open: char, close: char, inclusive: bool)
    requires
        open != close,
        line_chars(t, p.line as nat) matches Some(l) && l.len() <= usize::MAX,
    ensures
        ({
            let l = line_chars(t, p.line as nat)->0;
            &&& spec_surrounding(p, t, open, close, inclusive) matches Some((s, e)) ==> s.line
                == p.line && e.line == p.line && enclosed_by(
                l,
                s.col as int,
                e.col as int,
                open,
                close,
                inclusive,
            )
            &&& forall|j: int, k: int|
                inside_simple_pair(l, p.col as int, j, k, open, close) ==> spec_surrounding(
                    p,
                    t,
                    open,
                    close,
                    inclusive,
                ) == Some(
                    if inclusive {
                        (pos(p.line as int, j), pos(p.line as int, k))
                    } else {
                        (pos(p.line as int, j + 1), pos(p.line as int, k - 1))
                    },
                )
        }),
{
    let l = line_chars(t, p.line as nat)->0;
    let start = if (p.col as int) < l.len() - 1 {
        p.col as int
    } else {
        l.len() - 1
    };
    lemma_open_scan_sound(l, open, close, p.col as int, start, 0);
    match open_scan(l, open, close, p.col as int, start, 0) {
        Some(o) => {
            lemma_close_scan_sound(l, open, close, o, 0);
            assert(close_scan(l, open, close, o, 0) == close_scan(l, open, close, o + 1, 1));
            lemma_close_scan_sound(l, open, close, o + 1, 1);
        },
        None => {},
    }
    assert forall|j: int, k: int|
        inside_simple_pair(l, p.col as int, j, k, open, close) implies spec_surrounding(
            p,
            t,
            open,
            close,
            inclusive,
        ) == Some(
            if inclusive {
                (pos(p.line as int, j), pos(p.line as int, k))
            } else {
                (pos(p.line as int, j + 1), pos(p.line as int, k - 1))
            },
        ) by {
        assert(start == p.col);
        lemma_open_scan_reaches(l, open, close, p.col as int, start, j);
        assert(close_scan(l, open, close, j, 0) == close_scan(l, open, close, j + 1, 1));
        lemma_close_scan_reaches(l, open, close, j + 1, k);
    }
}

/// The bracket text objects select what lies inside a pair of their own
/// brackets on the cursor's line: a result of `i(`, `i[` or `i{` starts
/// right after an opening bracket of that kind and ends right before a
/// closing one of that kind, and `a(`, `a[`, `a{` span the brackets
/// themselves. When the cursor sits between an opening bracket and the
/// next closing bracket of that kind, with none of that kind between them,
/// that pair is the one selected.
pub proof fn law_bracket_objects(p: Position, t: Seq<char>)
    requires
        line_chars(t, p.line as nat) matches Some(l) && l.len() <= usize::MAX,
    ensures
        ({
            let l = line_chars(t, p.line as nat)->0;
            let c = p.col as int;
            &&& spec_range(TextObject::InnerParen, p, t) matches Some((s, e)) ==> s.line == p.line
                && enclosed_by(l, s.col as int, e.col as int, '(', ')', false)
            &&& spec_range(TextObject::AroundParen, p, t) matches Some((s, e)) ==> s.line == p.line
                && enclosed_by(l, s.col as int, e.col as int, '(', ')', true)
            &&& spec_range(TextObject::InnerBracket, p, t) matches Some((s, e)) ==> s.line
                == p.line && enclosed_by(l, s.col as int, e.col as int, '[', ']', false)
            &&& spec_range(TextObject::AroundBracket, p, t) matches Some((s, e)) ==> s.line
                == p.line && enclosed_by(l, s.col as int, e.col as int, '[', ']', true)
            &&& spec_range(TextObject::InnerBrace, p, t) matches Some((s, e)) ==> s.line == p.line
                && enclosed_by(l, s.col as int, e.col as int, '{', '}', false)
            &&& spec_range(TextObject::AroundBrace, p, t) matches Some((s, e)) ==> s.line == p.line
                && enclosed_by(l, s.col as int, e.col as int, '{', '}', true)
            &&& forall|j: int, k: int|
                inside_simple_pair(l, c, j, k, '(', ')') ==> spec_range(TextObject::InnerParen, p, t)
                    == Some((pos(p.line as int, j + 1), pos(p.line as int, k - 1)))
                    && spec_range(TextObject::AroundParen, p, t) == Some(
                    (pos(p.line as int, j), pos(p.line as int, k)),
                )
            &&& forall|j: int, k: int|
                inside_simple_pair(l, c, j, k, '[', ']') ==> spec_range(TextObject::InnerBracket, p, t)
                    == Some((pos(p.line as int, j + 1), pos(p.line as int, k - 1)))
                    && spec_range(TextObject::AroundBracket, p, t) == Some(
                    (pos(p.line as int, j), pos(p.line as int, k)),
                )
            &&& forall|j: int, k: int|
                inside_simple_pair(l, c, j, k, '{', '}') ==> spec_range(TextObject::InnerBrace, p, t)
                    == Some((pos(p.line as int, j + 1), pos(p.line as int, k - 1)))
                    && spec_range(TextObject::AroundBrace, p, t) == Some(
                    (pos(p.line as int, j), pos(p.line as int, k)),
                )
        }),
{
    lemma_surrounding(p, t, '(', ')', false);
    lemma_surrounding(p, t, '(', ')', true);
    lemma_surrounding(p, t, '[', ']', false);
    lemma_surrounding(p, t, '[', ']', true);
    lemma_surrounding(p, t, '{', '}', false);
    lemma_surrounding(p, t, '{', '}', true);
}

} // verus!
