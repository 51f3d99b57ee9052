use vstd::prelude::*;

use crate::editor::buffer::{line_len_of, trim_newlines, Buffer};
use crate::editor::rope::{is_line_text, line_of, rope_line_count};
use crate::geometry::Position;
use crate::text::{chars_of, char_is_alphanumeric, char_is_whitespace, is_alphanumeric, is_whitespace};

verus! {

/// A motion describes a cursor movement.
#[derive(Debug, Clone, Copy, PartialEq, Eq, Structural)]
pub enum Motion {
    Left,
    Right,
    Up,
    Down,
    WordForward,
    WordBackward,
    WordEnd,
    LineStart,
    LineEnd,
    FirstNonBlank,
    FileStart,
    FileEnd,
    LineUp(usize),
    LineDown(usize),
    FindChar(char),
    FindCharBackward(char),
    MatchBracket,
}

/// Word chars: alphanumeric or underscore.
pub open spec fn is_word(c: char) -> bool {
    char_is_alphanumeric(c) || c == '_'
}

pub open spec fn is_ws(c: char) -> bool {
    char_is_whitespace(c)
}

/// The chars of line `line` of `t` without trailing newlines, if the line
/// exists.
pub open spec fn line_chars(t: Seq<char>, line: nat) -> Option<Seq<char>> {
    if line < rope_line_count(t) {
        Some(trim_newlines(line_of(t, line)))
    } else {
        None
    }
}

/// The length of a line without its line break; 0 past the last line.
pub open spec fn line_length(t: Seq<char>, line: nat) -> nat {
    if line < rope_line_count(t) {
        line_len_of(line_of(t, line))
    } else {
        0
    }
}

pub open spec fn sat_sub(a: int, b: int) -> int {
    if a >= b {
        a - b
    } else {
        0
    }
}

pub open spec fn min(a: int, b: int) -> int {
    if a <= b {
        a
    } else {
        b
    }
}

pub open spec fn pos(line: int, col: int) -> Position {
    Position { line: line as usize, col: col as usize }
}

/// From `i`, past the word chars.
pub open spec fn skip_word(l: Seq<char>, i: int) -> int
    decreases l.len() - i,
{
    if 0 <= i < l.len() && is_word(l[i]) {
        skip_word(l, i + 1)
    } else {
        i
    }
}

/// From `i`, past the whitespace.
pub open spec fn skip_ws(l: Seq<char>, i: int) -> int
    decreases l.len() - i,
{
    if 0 <= i < l.len() && is_ws(l[i]) {
        skip_ws(l, i + 1)
    } else {
        i
    }
}

/// Back from `i` over whitespace, stopping at 0.
pub open spec fn back_ws(l: Seq<char>, i: int) -> int
    decreases i,
{
    if i > 0 && is_ws(l[i]) {
        back_ws(l, i - 1)
    } else {
        i
    }
}

/// Back from `i` while the char before is a word char, stopping at 0.
pub open spec fn back_word(l: Seq<char>, i: int) -> int
    decreases i,
{
    if i > 0 && is_word(l[i - 1]) {
        back_word(l, i - 1)
    } else {
        i
    }
}

/// Forward from `i` while the next char is a word char.
pub open spec fn word_end_from(l: Seq<char>, i: int) -> int
    decreases l.len() - i,
{
    if i >= 0 && i + 1 < l.len() && is_word(l[i + 1]) {
        word_end_from(l, i + 1)
    } else {
        i
    }
}

/// The first index from `i` holding a non-whitespace char.
pub open spec fn first_non_ws(l: Seq<char>, i: int) -> Option<int>
    decreases l.len() - i,
{
    if i < 0 || i >= l.len() {
        None
    } else if !is_ws(l[i]) {
        Some(i)
    } else {
        first_non_ws(l, i + 1)
    }
}

/// The first index from `i` holding `ch`.
pub open spec fn find_fwd(l: Seq<char>, ch: char, i: int) -> Option<int>
    decreases l.len() - i,
{
    if i < 0 || i >= l.len() {
        None
    } else if l[i] == ch {
        Some(i)
    } else {
        find_fwd(l, ch, i + 1)
    }
}

/// The last index below `i` holding `ch`.
pub open spec fn find_back(l: Seq<char>, ch: char, i: int) -> Option<int>
    decreases i,
{
    if i <= 0 {
        None
    } else if l[i - 1] == ch {
        Some(i - 1)
    } else {
        find_back(l, ch, i - 1)
    }
}

/// The nesting depth after the char at `i`: one deeper for `open`, one
/// shallower for `close`.
pub open spec fn depth_step(l: Seq<char>, open: char, close: char, i: int, depth: int) -> int {
    depth + (if l[i] == open {
        1int
    } else {
        0int
    }) - (if l[i] == close {
        1int
    } else {
        0int
    })
}

/// Scanning forward from `i` with nesting `depth`, the first index where the
/// depth returns to zero.
pub open spec fn match_fwd(l: Seq<char>, open: char, close: char, i: int, depth: int) -> Option<int>
    decreases l.len() - i,
{
    if i < 0 || i >= l.len() {
        None
    } else if depth_step(l, open, close, i, depth) == 0 {
        Some(i)
    } else {
        match_fwd(l, open, close, i + 1, depth_step(l, open, close, i, depth))
    }
}

/// Scanning backward from `i` (down to 0) with nesting `depth`, the first
/// index where the depth returns to zero.
pub open spec fn match_back(l: Seq<char>, open: char, close: char, i: int, depth: int) -> Option<int>
    decreases i + 1,
{
    if i < 0 || i >= l.len() {
        None
    } else if depth_step(l, open, close, i, depth) == 0 {
        Some(i)
    } else {
        match_back(l, open, close, i - 1, depth_step(l, open, close, i, depth))
    }
}

/// The bracket that pairs with `c`, and whether it lies forward.
pub open spec fn bracket_partner(c: char) -> Option<(char, bool)> {
    if c == '(' {
        Some((')', true))
    } else if c == '[' {
        Some((']', true))
    } else if c == '{' {
        Some(('}', true))
    } else if c == ')' {
        Some(('(', false))
    } else if c == ']' {
        Some(('[', false))
    } else if c == '}' {
        Some(('{', false))
    } else {
        None
    }
}

pub open spec fn spec_first_non_blank(p: Position, t: Seq<char>) -> Position {
    match line_chars(t, p.line as nat) {
        None => p,
        Some(l) => pos(
            p.line as int,
            match first_non_ws(l, 0) {
                Some(i) => i,
                None => 0,
            },
        ),
    }
}

pub open spec fn spec_word_forward(p: Position, t: Seq<char>) -> Position {
    match line_chars(t, p.line as nat) {
        None => p,
        Some(l) => {
            let col = skip_ws(l, skip_word(l, p.col as int));
            if col >= l.len() {
                if p.line + 1 < rope_line_count(t) {
                    spec_first_non_blank(pos(p.line + 1, 0), t)
                } else {
                    pos(p.line as int, sat_sub(l.len() as int, 1))
                }
            } else {
                pos(p.line as int, col)
            }
        },
    }
}

pub open spec fn spec_word_backward(p: Position, t: Seq<char>) -> Position {
    match line_chars(t, p.line as nat) {
        None => p,
        Some(l) => if p.col == 0 {
            if p.line > 0 {
                pos(p.line - 1, sat_sub(line_length(t, (p.line - 1) as nat) as int, 1))
            } else {
                p
            }
        } else {
            pos(p.line as int, back_word(l, back_ws(l, p.col - 1)))
        },
    }
}

pub open spec fn spec_word_end(p: Position, t: Seq<char>) -> Position {
    match line_chars(t, p.line as nat) {
        None => p,
        Some(l) => {
            let col = word_end_from(l, skip_ws(l, p.col + 1));
            if col >= l.len() {
                pos(p.line as int, sat_sub(l.len() as int, 1))
            } else {
                pos(p.line as int, col)
            }
        },
    }
}

pub open spec fn spec_match_bracket(p: Position, t: Seq<char>) -> Position {
    match line_chars(t, p.line as nat) {
        None => p,
        Some(l) => if p.col >= l.len() {
            p
        } else {
            match bracket_partner(l[p.col as int]) {
                None => p,
                Some((target, forward)) => {
                    let found = if forward {
                        match_fwd(l, l[p.col as int], target, p.col as int, 0)
                    } else {
                        match_back(l, l[p.col as int], target, p.col as int, 0)
                    };
                    match found {
                        Some(i) => pos(p.line as int, i),
                        None => p,
                    }
                },
            }
        },
    }
}

/// Where a motion takes a position in a text.
pub open spec fn spec_apply(m: Motion, p: Position, t: Seq<char>) -> Position {
    let last_line = sat_sub(rope_line_count(t) as int, 1);
    match m {
        Motion::Left => pos(p.line as int, sat_sub(p.col as int, 1)),
        Motion::Right => {
            let len = line_length(t, p.line as nat) as int;
            let max_col = if len > 0 {
                len - 1
            } else {
                0
            };
            pos(p.line as int, min(p.col + 1, max_col))
        },
        Motion::Up => pos(sat_sub(p.line as int, 1), p.col as int),
        Motion::Down => pos(min(p.line + 1, last_line), p.col as int),
        Motion::WordForward => spec_word_forward(p, t),
        Motion::WordBackward => spec_word_backward(p, t),
        Motion::WordEnd => spec_word_end(p, t),
        Motion::LineStart => pos(p.line as int, 0),
        Motion::LineEnd => pos(p.line as int, sat_sub(line_length(t, p.line as nat) as int, 1)),
        Motion::FirstNonBlank => spec_first_non_blank(p, t),
        Motion::FileStart => pos(0, 0),
        Motion::FileEnd => pos(last_line, 0),
        Motion::LineUp(n) => pos(sat_sub(p.line as int, n as int), p.col as int),
        Motion::LineDown(n) => pos(min(p.line + n, last_line), p.col as int),
        Motion::FindChar(ch) => match line_chars(t, p.line as nat) {
            None => p,
            Some(l) => match find_fwd(l, ch, p.col + 1) {
                Some(i) => pos(p.line as int, i),
                None => p,
            },
        },
        Motion::FindCharBackward(ch) => match line_chars(t, p.line as nat) {
            None => p,
            Some(l) => match find_back(l, ch, p.col as int) {
                Some(i) => pos(p.line as int, i),
                None => p,
            },
        },
        Motion::MatchBracket => spec_match_bracket(p, t),
    }
}

/// The inputs on which a motion stays within the machine's integers and its
/// line's chars.
pub open spec fn apply_requires(m: Motion, p: Position, t: Seq<char>) -> bool {
    match m {
        Motion::Right | Motion::WordEnd | Motion::FindChar(_) => p.col < usize::MAX,
        Motion::Down => p.line < usize::MAX,
        Motion::LineDown(n) => p.line + n <= usize::MAX,
        Motion::WordForward => p.line < usize::MAX,
        Motion::WordBackward => match line_chars(t, p.line as nat) {
            Some(l) => p.col <= l.len() || p.col <= 1,
            None => true,
        },
        Motion::FindCharBackward(_) => match line_chars(t, p.line as nat) {
            Some(l) => p.col <= l.len(),
            None => true,
        },
        Motion::MatchBracket => match line_chars(t, p.line as nat) {
            Some(l) => l.len() < 0x7fff_ffff,
            None => true,
        },
        _ => true,
    }
}

/// The chars of a line without trailing newlines.
pub fn buffer_line_chars(buffer: &Buffer, line: usize) -> (r: Option<Vec<char>>)
    ensures
        match r {
            Some(v) => line_chars(buffer@, line as nat) == Some(v@),
            None => line_chars(buffer@, line as nat) is None,
        },
{
    match buffer.line_to_string(line) {
        Some(s) => Some(chars_of(s.as_str())),
        None => None,
    }
}

fn is_word_char(c: char) -> (r: bool)
    ensures
        r == is_word(c),
{
    is_alphanumeric(c) || c == '_'
}

fn move_left(p: Position) -> (r: Position)
    ensures
        r == pos(p.line as int, sat_sub(p.col as int, 1)),
{
    Position::new(p.line, if p.col >= 1 { p.col - 1 } else { 0 })
}

fn move_right(p: Position, buffer: &Buffer) -> (r: Position)
    requires
        p.col < usize::MAX,
    ensures
        r == spec_apply(Motion::Right, p, buffer@),
{
    let line_len = buffer.line_len(p.line);
    let max_col = if line_len > 0 {
        line_len - 1
    } else {
        0
    };
    let c = p.col + 1;
    Position::new(p.line, if c <= max_col { c } else { max_col })
}

fn move_up(p: Position) -> (r: Position)
    ensures
        r == pos(sat_sub(p.line as int, 1), p.col as int),
{
    Position::new(if p.line >= 1 { p.line - 1 } else { 0 }, p.col)
}

fn move_down(p: Position, buffer: &Buffer) -> (r: Position)
    requires
        p.line < usize::MAX,
    ensures
        r == spec_apply(Motion::Down, p, buffer@),
{
    let max_line = buffer.line_count() - 1;
    let l = p.line + 1;
    Position::new(if l <= max_line { l } else { max_line }, p.col)
}

fn first_non_blank(p: Position, buffer: &Buffer) -> (r: Position)
    ensures
        r == spec_first_non_blank(p, buffer@),
{
    let chars = match buffer_line_chars(buffer, p.line) {
        Some(v) => v,
        None => return p,
    };
    let mut i: usize = 0;
    while i < chars.len()
        invariant
            i <= chars@.len(),
            line_chars(buffer@, p.line as nat) == Some(chars@),
            first_non_ws(chars@, 0) == first_non_ws(chars@, i as int),
        decreases chars@.len() - i,
    {
        if !is_whitespace(chars[i]) {
            return Position::new(p.line, i);
        }
        i = i + 1;
    }
    Position::new(p.line, 0)
}

fn word_forward(p: Position, buffer: &Buffer) -> (r: Position)
    requires
        p.line < usize::MAX,
    ensures
        r == spec_word_forward(p, buffer@),
{
    let chars = match buffer_line_chars(buffer, p.line) {
        Some(v) => v,
        None => return p,
    };
    let len = chars.len();
    let mut col = p.col;
    while col < len && is_word_char(chars[col])
        invariant
            len == chars@.len(),
            skip_word(chars@, p.col as int) == skip_word(chars@, col as int),
        decreases len - col,
    {
        col = col + 1;
    }
    let ghost c1 = col;
    while col < len && is_whitespace(chars[col])
        invariant
            len == chars@.len(),
            skip_ws(chars@, c1 as int) == skip_ws(chars@, col as int),
        decreases len - col,
    {
        col = col + 1;
    }
    if col >= len {
        if p.line + 1 < buffer.line_count() {
            return first_non_blank(Position::new(p.line + 1, 0), buffer);
        }
        return Position::new(p.line, if len >= 1 { len - 1 } else { 0 });
    }
    Position::new(p.line, col)
}

fn word_backward(p: Position, buffer: &Buffer) -> (r: Position)
    requires
        apply_requires(Motion::WordBackward, p, buffer@),
    ensures
        r == spec_word_backward(p, buffer@),
{
    let chars = match buffer_line_chars(buffer, p.line) {
        Some(v) => v,
        None => return p,
    };
    let mut col = p.col;
    if col == 0 {
        if p.line > 0 {
            let prev_len = buffer.line_len(p.line - 1);
            return Position::new(p.line - 1, if prev_len >= 1 { prev_len - 1 } else { 0 });
        }
        return p;
    }
    col = col - 1;
    while col > 0 && is_whitespace(chars[col])
        invariant
            col < chars@.len() || col == 0,
            back_ws(chars@, p.col - 1) == back_ws(chars@, col as int),
        decreases col,
    {
        col = col - 1;
    }
    let ghost c1 = col;
    while col > 0 && is_word_char(chars[col - 1])
        invariant
            col < chars@.len() || col == 0,
            back_word(chars@, c1 as int) == back_word(chars@, col as int),
        decreases col,
    {
        col = col - 1;
    }
    Position::new(p.line, col)
}

fn word_end(p: Position, buffer: &Buffer) -> (r: Position)
    requires
        p.col < usize::MAX,
    ensures
        r == spec_word_end(p, buffer@),
{
    let chars = match buffer_line_chars(buffer, p.line) {
        Some(v) => v,
        None => return p,
    };
    let len = chars.len();
    let mut col = p.col + 1;
    while col < len && is_whitespace(chars[col])
        invariant
            len == chars@.len(),
            skip_ws(chars@, p.col + 1) == skip_ws(chars@, col as int),
        decreases len - col,
    {
        col = col + 1;
    }
    let ghost c1 = col;
    while col < len && col + 1 < len && is_word_char(chars[col + 1])
        invariant
            len == chars@.len(),
            word_end_from(chars@, c1 as int) == word_end_from(chars@, col as int),
        decreases len - col,
    {
        col = col + 1;
    }
    if col >= len {
        return Position::new(p.line, if len >= 1 { len - 1 } else { 0 });
    }
    Position::new(p.line, col)
}

fn find_char_forward(p: Position, buffer: &Buffer, ch: char) -> (r: Position)
    requires
        p.col < usize::MAX,
    ensures
        r == spec_apply(Motion::FindChar(ch), p, buffer@),
{
    let chars = match buffer_line_chars(buffer, p.line) {
        Some(v) => v,
        None => return p,
    };
    let mut i: usize = p.col + 1;
    while i < chars.len()
        invariant
            find_fwd(chars@, ch, p.col + 1) == find_fwd(chars@, ch, i as int),
            line_chars(buffer@, p.line as nat) == Some(chars@),
        decreases chars@.len() - i,
    {
        if chars[i] == ch {
            return Position::new(p.line, i);
        }
        i = i + 1;
    }
    p
}

fn find_char_backward(p: Position, buffer: &Buffer, ch: char) -> (r: Position)
    requires
        apply_requires(Motion::FindCharBackward(ch), p, buffer@),
    ensures
        r == spec_apply(Motion::FindCharBackward(ch), p, buffer@),
{
    let chars = match buffer_line_chars(buffer, p.line) {
        Some(v) => v,
        None => return p,
    };
    let mut i: usize = p.col;
    while i > 0
        invariant
            i <= p.col,
            p.col <= chars@.len(),
            line_chars(buffer@, p.line as nat) == Some(chars@),
            find_back(chars@, ch, p.col as int) == find_back(chars@, ch, i as int),
        decreases i,
    {
        if chars[i - 1] == ch {
            return Position::new(p.line, i - 1);
        }
        i = i - 1;
    }
    p
}

pub fn match_bracket(p: Position, buffer: &Buffer) -> (r: Position)
    requires
        apply_requires(Motion::MatchBracket, p, buffer@),
    ensures
        r == spec_match_bracket(p, buffer@),
{
    let chars = match buffer_line_chars(buffer, p.line) {
        Some(v) => v,
        None => return p,
    };
    if p.col >= chars.len() {
        return p;
    }
    let ch = chars[p.col];
    let (target, forward) = if ch == '(' {
        (')', true)
    } else if ch == '[' {
        (']', true)
    } else if ch == '{' {
        ('}', true)
    } else if ch == ')' {
        ('(', false)
    } else if ch == ']' {
        ('[', false)
    } else if ch == '}' {
        ('{', false)
    } else {
        return p;
    };
    let mut depth: i32 = 0;
    if forward {
        let mut i: usize = p.col;
        while i < chars.len()
            invariant
                p.col <= i <= chars@.len(),
                chars@.len() < 0x7fff_ffff,
                line_chars(buffer@, p.line as nat) == Some(chars@),
                ch == chars@[p.col as int],
                bracket_partner(ch) == Some((target, true)),
                -(i - p.col) <= depth <= i - p.col,
                match_fwd(chars@, ch, target, p.col as int, 0) == match_fwd(
                    chars@,
                    ch,
                    target,
                    i as int,
                    depth as int,
                ),
            decreases chars@.len() - i,
        {
            if chars[i] == ch {
                depth = depth + 1;
            }
            if chars[i] == target {
                depth = depth - 1;
            }
            if depth == 0 {
                return Position::new(p.line, i);
            }
            i = i + 1;
        }
    } else {
        let mut i: usize = p.col + 1;
        while i > 0
            invariant
                i <= p.col + 1,
                p.col < chars@.len() < 0x7fff_ffff,
                line_chars(buffer@, p.line as nat) == Some(chars@),
                ch == chars@[p.col as int],
                bracket_partner(ch) == Some((target, false)),
                -(p.col + 1 - i) <= depth <= p.col + 1 - i,
                match_back(chars@, ch, target, p.col as int, 0) == match_back(
                    chars@,
                    ch,
                    target,
                    i - 1,
                    depth as int,
                ),
            decreases i,
        {
            if chars[i - 1] == ch {
                depth = depth + 1;
            }
            if chars[i - 1] == target {
                depth = depth - 1;
            }
            if depth == 0 {
                return Position::new(p.line, i - 1);
            }
            i = i - 1;
        }
    }
    p
}

impl Motion {
    /// Apply this motion to a position, returning the new position.
    pub fn apply(&self, p: Position, buffer: &Buffer) -> (r: Position)
        requires
            apply_requires(*self, p, buffer@),
        ensures
            r == spec_apply(*self, p, buffer@),
    {
        match self {
            Motion::Left => move_left(p),
            Motion::Right => move_right(p, buffer),
            Motion::Up => move_up(p),
            Motion::Down => move_down(p, buffer),
            Motion::WordForward => word_forward(p, buffer),
            Motion::WordBackward => word_backward(p, buffer),
            Motion::WordEnd => word_end(p, buffer),
            Motion::LineStart => Position::new(p.line, 0),
            Motion::LineEnd => {
                let len = buffer.line_len(p.line);
                Position::new(p.line, if len >= 1 { len - 1 } else { 0 })
            },
            Motion::FirstNonBlank => first_non_blank(p, buffer),
            Motion::FileStart => Position::new(0, 0),
            Motion::FileEnd => {
                let last = buffer.line_count() - 1;
                Position::new(last, 0)
            },
            Motion::LineUp(n) => Position::new(if p.line >= *n { p.line - *n } else { 0 }, p.col),
            Motion::LineDown(n) => {
                let last = buffer.line_count() - 1;
                let l = p.line + *n;
                Position::new(if l <= last { l } else { last }, p.col)
            },
            Motion::FindChar(ch) => find_char_forward(p, buffer, *ch),
            Motion::FindCharBackward(ch) => find_char_backward(p, buffer, *ch),
            Motion::MatchBracket => match_bracket(p, buffer),
        }
    }
}

proof fn lemma_skip_ws_props(l: Seq<char>, i: int)
    requires
        0 <= i <= l.len(),
    ensures
        i <= skip_ws(l, i) <= l.len(),
        forall|j: int| i <= j < skip_ws(l, i) ==> is_ws(#[trigger] l[j]),
        skip_ws(l, i) < l.len() ==> !is_ws(l[skip_ws(l, i)]),
    decreases l.len() - i,
{
    if i < l.len() && is_ws(l[i]) {
        lemma_skip_ws_props(l, i + 1);
    }
}

proof fn lemma_word_end_props(l: Seq<char>, i: int)
    requires
        0 <= i < l.len(),
    ensures
        i <= word_end_from(l, i) < l.len(),
        word_end_from(l, i) + 1 < l.len() ==> !is_word(l[word_end_from(l, i) + 1]),
        forall|j: int| i <= j < word_end_from(l, i) ==> is_word(#[trigger] l[j + 1]),
    decreases l.len() - i,
{
    if i + 1 < l.len() && is_word(l[i + 1]) {
        lemma_word_end_props(l, i + 1);
    }
}

/// `e` moves forward on the cursor's line. When a char follows the cursor
/// it lands strictly after the cursor's column, on the first place after
/// it where a chunk ends: a word char or non-blank char not followed by a
/// word char (the last char of a word, or a mark not joined to a word), or
/// the line's last char. What it passes over is blanks, or chars followed by a word
/// char. On the last char of the line it stays there.
pub proof fn law_word_end_moves_forward(p: Position, t: Seq<char>)
    requires
        line_chars(t, p.line as nat) matches Some(l) && l.len() <= usize::MAX,
    ensures
        ({
            let l = line_chars(t, p.line as nat)->0;
            let r = spec_apply(Motion::WordEnd, p, t);
            &&& r.line == p.line
            &&& p.col + 1 < l.len() ==> {
                &&& p.col < r.col < l.len()
                &&& r.col + 1 < l.len() ==> (!is_ws(l[r.col as int]) || is_word(l[r.col as int]))
                    && !is_word(l[r.col + 1])
                &&& forall|j: int|
                    p.col < j < r.col ==> is_ws(#[trigger] l[j]) || is_word(l[j + 1])
            }
            &&& p.col + 1 == l.len() ==> r.col == p.col
        }),
{
    let l = line_chars(t, p.line as nat)->0;
    if p.col + 1 <= l.len() {
        lemma_skip_ws_props(l, p.col + 1);
        let s0 = skip_ws(l, p.col + 1);
        if s0 < l.len() {
            lemma_word_end_props(l, s0);
            let c = word_end_from(l, s0);
            assert forall|j: int| p.col < j < c implies is_ws(#[trigger] l[j]) || is_word(l[j + 1]) by {
                if j < s0 {
                    assert(is_ws(l[j]));
                } else {
                    assert(is_word(l[j + 1]));
                }
            }
            if c > s0 {
                assert(is_word(l[(c - 1) + 1]));
            }
        } else {
            assert(word_end_from(l, s0) == s0);
            assert forall|j: int| p.col < j < l.len() - 1 implies is_ws(#[trigger] l[j]) || is_word(l[j + 1]) by {
                assert(is_ws(l[j]));
            }
        }
    }
}

} // verus!
