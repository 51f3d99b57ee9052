//! The framing of language-server messages: a `Content-Length` header,
//! a blank line, then a JSON body of that many bytes.

use vstd::prelude::*;

use vstd::string::StringSliceAdditionalSpecFns;
use vstd::utf8::{decode_utf8, encode_scalar, encode_utf8, valid_utf8};

use crate::text::{
    ascii_lower, char_is_whitespace, chars_of, prefixed_str, starts_with, str_from_utf8, str_lowercase,
    str_to_lowercase, string_from_chars, trim_chars, trim_end, trim_start, trimmed,
};

verus! {

pub open spec fn is_digit(c: char) -> bool {
    '0' <= c <= '9'
}

pub open spec fn digit_value(c: char) -> nat {
    (c as u32 - '0' as u32) as nat
}

/// The number written by decimal digits.
pub open spec fn digits_value(d: Seq<char>) -> nat
    decreases d.len(),
{
    if d.len() == 0 {
        0
    } else {
        digits_value(d.drop_last()) * 10 + digit_value(d.last())
    }
}

pub open spec fn all_digits(d: Seq<char>) -> bool {
    forall|i: int| 0 <= i < d.len() ==> is_digit(#[trigger] d[i])
}

/// `usize`'s `FromStr`: an optional `+` followed by decimal digits only,
/// whose value fits.
pub open spec fn parse_usize_of(s: Seq<char>) -> Option<usize> {
    let d = if s.len() > 0 && s[0] == '+' {
        s.drop_first()
    } else {
        s
    };
    if d.len() > 0 && all_digits(d) && digits_value(d) <= usize::MAX {
        Some(digits_value(d) as usize)
    } else {
        None
    }
}

proof fn lemma_digits_grow(d: Seq<char>, i: int)
    requires
        0 <= i <= d.len(),
        all_digits(d),
    ensures
        digits_value(d) >= digits_value(d.take(i)),
    decreases d.len() - i,
{
    if i < d.len() {
        lemma_digits_grow(d, i + 1);
        assert(d.take(i + 1).drop_last() =~= d.take(i));
    } else {
        assert(d.take(i) =~= d);
    }
}

/// Parse a decimal `usize` as `str::parse` does.
pub fn parse_usize(s: &Vec<char>) -> (r: Option<usize>)
    ensures
        r == parse_usize_of(s@),
{
    let start: usize = if s.len() > 0 && s[0] == '+' {
        1
    } else {
        0
    };
    let ghost d = if s@.len() > 0 && s@[0] == '+' {
        s@.drop_first()
    } else {
        s@
    };
    assert(d =~= s@.skip(start as int));
    if start >= s.len() {
        return None;
    }
    let mut v: usize = 0;
    let mut i: usize = start;
    while i < s.len()
        invariant
            start <= i <= s@.len(),
            d == s@.skip(start as int),
            d == (if s@.len() > 0 && s@[0] == '+' {
                s@.drop_first()
            } else {
                s@
            }),
            all_digits(d.take(i - start)),
            v == digits_value(d.take(i - start)),
        decreases s@.len() - i,
    {
        let c = s[i];
        if !('0' <= c && c <= '9') {
            assert(d[i - start] == c);
            return None;
        }
        let digit = (c as u32 - '0' as u32) as usize;
        assert(d.take(i - start + 1).drop_last() =~= d.take(i - start));
        assert(all_digits(d.take(i - start + 1)));
        match v.checked_mul(10) {
            Some(m) => match m.checked_add(digit) {
                Some(n) => {
                    v = n;
                },
                None => {
                    proof {
                        if all_digits(d) {
                            lemma_digits_grow(d, i - start + 1);
                        }
                    }
                    return None;
                },
            },
            None => {
                proof {
                    if all_digits(d) {
                        lemma_digits_grow(d, i - start + 1);
                    }
                }
                return None;
            },
        }
        i = i + 1;
    }
    assert(d.take(i - start) =~= d);
    Some(v)
}

/// What a header line read from the stream tells: the headers ended (a
/// blank line), or another header line, with the `Content-Length` known so
/// far.
#[derive(Debug, Clone, Copy, PartialEq, Eq, Structural)]
pub enum HeaderLine {
    End,
    Field(Option<usize>),
}

/// The effect of one header line: a blank line ends the headers; a
/// `Content-Length:` line with a valid number sets the length; any other
/// line keeps it.
pub open spec fn header_line_of(line: Seq<char>, content_length: Option<usize>) -> HeaderLine {
    let t = trimmed(line);
    if t.len() == 0 {
        HeaderLine::End
    } else if starts_with(t, "Content-Length:"@) {
        match parse_usize_of(trimmed(t.skip(15))) {
            Some(n) => HeaderLine::Field(Some(n)),
            None => HeaderLine::Field(content_length),
        }
    } else {
        HeaderLine::Field(content_length)
    }
}

/// Read one header line of a message arriving on a stream.
pub fn read_header_line(line: &str, content_length: Option<usize>) -> (r: HeaderLine)
    ensures
        r == header_line_of(line@, content_length),
{
    let chars = chars_of(line);
    let t = trim_chars(&chars);
    if t.len() == 0 {
        return HeaderLine::End;
    }
    if prefixed_str(&t, "Content-Length:") {
        proof {
            reveal_strlit("Content-Length:");
        }
        let mut rest: Vec<char> = Vec::new();
        let mut k: usize = 15;
        while k < t.len()
            invariant
                15 <= k <= t@.len(),
                rest@ == t@.subrange(15, k as int),
            decreases t@.len() - k,
        {
            rest.push(t[k]);
            k = k + 1;
        }
        assert(rest@ =~= t@.skip(15));
        let value = trim_chars(&rest);
        return match parse_usize(&value) {
            Some(n) => HeaderLine::Field(Some(n)),
            None => HeaderLine::Field(content_length),
        };
    }
    HeaderLine::Field(content_length)
}

/// The two kinds of message a server sends.
#[derive(Debug, Clone, Copy, PartialEq, Eq, Structural)]
pub enum MessageKind {
    Response,
    Notification,
}

/// A message with an `id` and no `method` answers a request; anything else
/// (a notification, or a request from the server) is handled as a
/// notification.
pub fn message_kind(has_id: bool, has_method: bool) -> (k: MessageKind)
    ensures
        k == (if has_id && !has_method {
            MessageKind::Response
        } else {
            MessageKind::Notification
        }),
{
    if has_id && !has_method {
        MessageKind::Response
    } else {
        MessageKind::Notification
    }
}

/// The number of bytes of the UTF-8 encoding of some chars.
pub open spec fn utf8_len(s: Seq<char>) -> nat {
    encode_utf8(s).len()
}

/// The char index at which the UTF-8 encoding of `t` has `n` bytes, if a
/// char starts (or the text ends) there; searched from char `k`.
pub open spec fn char_at_byte(t: Seq<char>, n: int, k: int) -> Option<int>
    decreases t.len() - k,
{
    if k < 0 || k > t.len() || utf8_len(t.take(k)) > n {
        None
    } else if utf8_len(t.take(k)) == n {
        Some(k)
    } else if k == t.len() {
        None
    } else {
        char_at_byte(t, n, k + 1)
    }
}

/// The separator `"\r\n\r\n"` starts at char `i`.
pub open spec fn sep_at(s: Seq<char>, i: int) -> bool {
    0 <= i && i + 4 <= s.len() && s[i] == '\r' && s[i + 1] == '\n' && s[i + 2] == '\r' && s[i + 3]
        == '\n'
}

/// The first separator at or after char `i`.
pub open spec fn find_sep(s: Seq<char>, i: int) -> Option<int>
    decreases s.len() - i,
{
    if i < 0 || i + 4 > s.len() {
        None
    } else if sep_at(s, i) {
        Some(i)
    } else {
        find_sep(s, i + 1)
    }
}

/// The lines of a text, split at each `'\n'` (a final empty piece
/// included; it can hold no header).
pub open spec fn lines_of(h: Seq<char>) -> Seq<Seq<char>>
    decreases h.len(),
{
    if h.len() == 0 {
        seq![Seq::empty()]
    } else {
        let ls = lines_of(h.drop_last());
        if h.last() == '\n' {
            ls.push(Seq::empty())
        } else {
            ls.update(ls.len() - 1, ls.last().push(h.last()))
        }
    }
}

/// What a header line says of the content length.
pub enum LengthLine {
    /// The line gives the length.
    Length(nat),
    /// The line is no valid length header.
    Skip,
    /// The line names the header, but its text cannot be cut after the
    /// name (the cut would fall inside a char).
    Uncuttable,
}

/// The lowercase of a header text (`str::to_lowercase`); on ASCII text it is
/// the ASCII lowercase, char for char.
pub open spec fn lower_text(t: Seq<char>) -> Seq<char> {
    if vstd::utf8::is_ascii_chars(t) {
        t.map_values(|c: char| ascii_lower(c))
    } else {
        str_lowercase(t)
    }
}

/// A line names the length header when its trimmed text, lowercased,
/// starts with `content-length:`; the value is what follows the header
/// name's 15 bytes, trimmed.
pub open spec fn length_line(l: Seq<char>) -> LengthLine {
    let t = trimmed(l);
    if starts_with(lower_text(t), "content-length:"@) {
        match char_at_byte(t, 15, 0) {
            None => LengthLine::Uncuttable,
            Some(k) => match parse_usize_of(trimmed(t.skip(k))) {
                Some(n) => LengthLine::Length(n as nat),
                None => LengthLine::Skip,
            },
        }
    } else {
        LengthLine::Skip
    }
}

/// The first header line, from line `i` on, that gives the length or that
/// cannot be cut.
pub open spec fn first_length(ls: Seq<Seq<char>>, i: int) -> LengthLine
    decreases ls.len() - i,
{
    if i < 0 || i >= ls.len() {
        LengthLine::Skip
    } else {
        match length_line(ls[i]) {
            LengthLine::Skip => first_length(ls, i + 1),
            r => r,
        }
    }
}

/// What a buffer of received bytes holds.
#[derive(Debug, Clone, Copy, PartialEq, Eq, Structural)]
pub enum Frame {
    /// A whole message: its body is bytes `body_start..total`, and `total`
    /// bytes are used up.
    Complete { body_start: usize, total: usize },
    /// No whole message yet, or none that can be read.
    NoMessage,
    /// The header cannot be read as the protocol lays it out: the length
    /// header cannot be cut after its name, the length overflows, or the
    /// body ends inside a char.
    Malformed,
}

/// The message framed at the start of a buffer.
pub open spec fn frame_of(buf: Seq<u8>) -> Frame {
    if !valid_utf8(buf) {
        Frame::NoMessage
    } else {
        let s = decode_utf8(buf);
        match find_sep(s, 0) {
            None => Frame::NoMessage,
            Some(ce) => match first_length(lines_of(s.take(ce)), 0) {
                LengthLine::Skip => Frame::NoMessage,
                LengthLine::Uncuttable => Frame::Malformed,
                LengthLine::Length(n) => {
                    let body_start = utf8_len(s.take(ce)) + 4;
                    let total = body_start + n;
                    if total > usize::MAX {
                        Frame::Malformed
                    } else if buf.len() < total {
                        Frame::NoMessage
                    } else if char_at_byte(s, total as int, 0) is None {
                        Frame::Malformed
                    } else {
                        Frame::Complete { body_start: body_start as usize, total: total as usize }
                    }
                },
            },
        }
    }
}

proof fn lemma_encode_push(a: Seq<char>, c: char)
    ensures
        encode_utf8(a.push(c)) == encode_utf8(a) + encode_scalar(c as u32),
    decreases a.len(),
{
    if a.len() == 0 {
        assert(a.push(c).drop_first() =~= Seq::<char>::empty());
        assert(encode_utf8(Seq::<char>::empty()) =~= Seq::<u8>::empty());
        assert(encode_utf8(a.push(c)) =~= encode_scalar(c as u32));
    } else {
        lemma_encode_push(a.drop_first(), c);
        assert(a.push(c).drop_first() =~= a.drop_first().push(c));
        assert(encode_utf8(a.push(c)) =~= encode_utf8(a) + encode_scalar(c as u32));
    }
}

proof fn lemma_take_len(s: Seq<char>, k: int)
    requires
        0 <= k < s.len(),
    ensures
        utf8_len(s.take(k + 1)) == utf8_len(s.take(k)) + encode_scalar(s[k] as u32).len(),
{
    assert(s.take(k + 1) =~= s.take(k).push(s[k]));
    lemma_encode_push(s.take(k), s[k]);
}

proof fn lemma_take_le(s: Seq<char>, k: int)
    requires
        0 <= k <= s.len(),
    ensures
        utf8_len(s.take(k)) <= utf8_len(s),
    decreases s.len() - k,
{
    if k < s.len() {
        lemma_take_len(s, k);
        lemma_take_le(s, k + 1);
    } else {
        assert(s.take(k) =~= s);
    }
}

/// The number of UTF-8 bytes of a char.
fn char_width(c: char) -> (w: usize)
    ensures
        w == encode_scalar(c as u32).len(),
        1 <= w <= 4,
{
    proof {
        vstd::utf8::char_is_scalar(c);
    }
    let v = c as u32;
    if v < 0x80 {
        1
    } else if v < 0x800 {
        2
    } else if v < 0x10000 {
        3
    } else {
        4
    }
}

/// The char index at which the first `n` bytes of `t` end, if a char starts
/// there.
fn char_index_at_byte(t: &Vec<char>, n: usize) -> (r: Option<usize>)
    ensures
        match r {
            Some(k) => char_at_byte(t@, n as int, 0) == Some(k as int),
            None => char_at_byte(t@, n as int, 0) is None,
        },
{
    let mut k: usize = 0;
    let mut acc: usize = 0;
    assert(t@.take(0) =~= Seq::<char>::empty());
    assert(encode_utf8(Seq::<char>::empty()) =~= Seq::<u8>::empty());
    while k <= t.len()
        invariant
            k <= t@.len() + 1,
            k <= t@.len() ==> acc == utf8_len(t@.take(k as int)),
            k <= t@.len() ==> acc <= n,
            k <= t@.len() ==> char_at_byte(t@, n as int, 0) == char_at_byte(t@, n as int, k as int),
            k > t@.len() ==> char_at_byte(t@, n as int, 0) is None,
        decreases t@.len() + 1 - k,
    {
        if acc == n {
            return Some(k);
        }
        if k == t.len() {
            assert(char_at_byte(t@, n as int, k + 1) is None);
            return None;
        }
        let w = char_width(t[k]);
        proof {
            lemma_take_len(t@, k as int);
        }
        if w > n - acc {
            assert(char_at_byte(t@, n as int, k + 1) is None);
            return None;
        }
        acc = acc + w;
        k = k + 1;
    }
    None
}

/// The lines of a text, split at each `'\n'`.
fn split_lines(h: &Vec<char>, end: usize) -> (r: Vec<Vec<char>>)
    requires
        end <= h@.len(),
    ensures
        r@.len() == lines_of(h@.take(end as int)).len(),
        forall|i: int| 0 <= i < r@.len() ==> (#[trigger] r@[i])@ == lines_of(h@.take(end as int))[i],
{
    let mut r: Vec<Vec<char>> = Vec::new();
    r.push(Vec::new());
    let mut i: usize = 0;
    assert(h@.take(0) =~= Seq::<char>::empty());
    while i < end
        invariant
            i <= end <= h@.len(),
            r@.len() > 0,
            r@.len() == lines_of(h@.take(i as int)).len(),
            forall|j: int| 0 <= j < r@.len() ==> (#[trigger] r@[j])@ == lines_of(h@.take(i as int))[j],
        decreases end - i,
    {
        let c = h[i];
        assert(h@.take(i + 1).drop_last() =~= h@.take(i as int));
        if c == '\n' {
            r.push(Vec::new());
        } else {
            let last = r.len() - 1;
            let mut line = r[last].clone();
            line.push(c);
            r.set(last, line);
        }
        i = i + 1;
        proof {
            let ls = lines_of(h@.take(i as int));
            assert forall|j: int| 0 <= j < r@.len() implies (#[trigger] r@[j])@ == ls[j] by {}
        }
    }
    r
}

fn length_of_line(l: &Vec<char>) -> (r: LengthLineResult)
    ensures
        r.spec() == length_line(l@),
{
    let t = trim_chars(l);
    let text = string_from_chars(&t);
    let lower = str_to_lowercase(text.as_str());
    let lower_chars = chars_of(lower.as_str());
    if !prefixed_str(&lower_chars, "content-length:") {
        return LengthLineResult::Skip;
    }
    match char_index_at_byte(&t, 15) {
        None => LengthLineResult::Uncuttable,
        Some(k) => {
            let mut rest: Vec<char> = Vec::new();
            let mut j: usize = k;
            proof {
                let z = char_at_byte(t@, 15, 0);
                assert(z == Some(k as int));
                lemma_char_at_byte_range(t@, 15, 0);
            }
            while j < t.len()
                invariant
                    k <= j <= t@.len(),
                    rest@ == t@.subrange(k as int, j as int),
                decreases t@.len() - j,
            {
                rest.push(t[j]);
                j = j + 1;
            }
            assert(rest@ =~= t@.skip(k as int));
            let value = trim_chars(&rest);
            match parse_usize(&value) {
                Some(n) => LengthLineResult::Length(n),
                None => LengthLineResult::Skip,
            }
        },
    }
}

proof fn lemma_find_sep_range(s: Seq<char>, i: int)
    ensures
        find_sep(s, i) matches Some(j) ==> i <= j && j + 4 <= s.len() && sep_at(s, j),
    decreases s.len() - i,
{
    if !(i < 0 || i + 4 > s.len()) && !sep_at(s, i) {
        lemma_find_sep_range(s, i + 1);
    }
}

proof fn lemma_char_at_byte_range(t: Seq<char>, n: int, k: int)
    ensures
        char_at_byte(t, n, k) matches Some(j) ==> k <= j <= t.len(),
    decreases t.len() - k,
{
    if !(k < 0 || k > t.len() || utf8_len(t.take(k)) > n) && utf8_len(t.take(k)) != n && k != t.len() {
        lemma_char_at_byte_range(t, n, k + 1);
    }
}

/// A [`LengthLine`] with the length as a `usize`.
enum LengthLineResult {
    Length(usize),
    Skip,
    Uncuttable,
}

impl LengthLineResult {
    spec fn spec(self) -> LengthLine {
        match self {
            LengthLineResult::Length(n) => LengthLine::Length(n as nat),
            LengthLineResult::Skip => LengthLine::Skip,
            LengthLineResult::Uncuttable => LengthLine::Uncuttable,
        }
    }
}

fn find_separator(s: &Vec<char>) -> (r: Option<usize>)
    ensures
        match r {
            Some(i) => find_sep(s@, 0) == Some(i as int),
            None => find_sep(s@, 0) is None,
        },
{
    if s.len() < 4 {
        return None;
    }
    let mut i: usize = 0;
    while i <= s.len() - 4
        invariant
            s@.len() >= 4,
            i <= s@.len() - 3,
            find_sep(s@, 0) == find_sep(s@, i as int),
        decreases s@.len() - i,
    {
        if s[i] == '\r' && s[i + 1] == '\n' && s[i + 2] == '\r' && s[i + 3] == '\n' {
            return Some(i);
        }
        i = i + 1;
    }
    None
}

/// Find the first whole message at the start of a buffer of received
/// bytes: the headers end at the first blank line (`"\r\n\r\n"`), the
/// first header line that names `Content-Length` (in any case) with a
/// valid number gives the body's length, and the message is complete once
/// the buffer holds the whole body.
pub fn decode_frame(buf: &[u8]) -> (r: Frame)
    ensures
        r == frame_of(buf@),
{
    let text = match str_from_utf8(buf) {
        Some(text) => text,
        None => {
            return Frame::NoMessage;
        },
    };
    let s = chars_of(text);
    proof {
        vstd::utf8::encode_utf8_decode_utf8(text@);
        assert(s@ == decode_utf8(buf@));
    }
    let ce = match find_separator(&s) {
        Some(ce) => ce,
        None => {
            return Frame::NoMessage;
        },
    };
    proof {
        lemma_find_sep_range(s@, 0);
        assert(utf8_len(s@) == buf@.len());
    }
    let lines = split_lines(&s, ce);
    let ghost ls = lines_of(s@.take(ce as int));
    let mut i: usize = 0;
    let mut length: Option<usize> = None;
    while i < lines.len() && length.is_none()
        invariant
            valid_utf8(buf@),
            s@ == decode_utf8(buf@),
            find_sep(s@, 0) == Some(ce as int),
            ls == lines_of(s@.take(ce as int)),
            lines@.len() == ls.len(),
            forall|j: int| 0 <= j < lines@.len() ==> (#[trigger] lines@[j])@ == ls[j],
            i <= lines@.len(),
            length is None ==> first_length(ls, 0) == first_length(ls, i as int),
            length matches Some(n) ==> first_length(ls, 0) == LengthLine::Length(n as nat),
        decreases lines@.len() - i,
    {
        match length_of_line(&lines[i]) {
            LengthLineResult::Length(n) => {
                length = Some(n);
            },
            LengthLineResult::Uncuttable => {
                return Frame::Malformed;
            },
            LengthLineResult::Skip => {},
        }
        i = i + 1;
    }
    let n = match length {
        Some(n) => n,
        None => {
            return Frame::NoMessage;
        },
    };
    // the header's byte length
    let mut header_bytes: usize = 0;
    let mut k: usize = 0;
    assert(s@.take(0) =~= Seq::<char>::empty());
    assert(encode_utf8(Seq::<char>::empty()) =~= Seq::<u8>::empty());
    assert(buf@.len() == buf.len());
    while k < ce
        invariant
            buf@.len() <= usize::MAX,
            k <= ce,
            ce + 4 <= s@.len(),
            header_bytes == utf8_len(s@.take(k as int)),
            utf8_len(s@) == buf@.len(),
        decreases ce - k,
    {
        proof {
            lemma_take_len(s@, k as int);
            lemma_take_le(s@, k + 1);
        }
        header_bytes = header_bytes + char_width(s[k]);
        k = k + 1;
    }
    proof {
        lemma_find_sep_range(s@, 0);
        assert(sep_at(s@, ce as int));
        lemma_take_len(s@, ce as int);
        lemma_take_len(s@, ce + 1);
        lemma_take_len(s@, ce + 2);
        lemma_take_len(s@, ce + 3);
        lemma_take_le(s@, ce + 4);
    }
    let body_start = header_bytes + 4;
    let total = match body_start.checked_add(n) {
        Some(t) => t,
        None => {
            return Frame::Malformed;
        },
    };
    if buf.len() < total {
        return Frame::NoMessage;
    }
    match char_index_at_byte(&s, total) {
        None => Frame::Malformed,
        Some(_) => Frame::Complete { body_start, total },
    }
}

/// The decimal digit char of a value below ten.
pub open spec fn digit_char(d: nat) -> char {
    if d == 0 {
        '0'
    } else if d == 1 {
        '1'
    } else if d == 2 {
        '2'
    } else if d == 3 {
        '3'
    } else if d == 4 {
        '4'
    } else if d == 5 {
        '5'
    } else if d == 6 {
        '6'
    } else if d == 7 {
        '7'
    } else if d == 8 {
        '8'
    } else {
        '9'
    }
}

/// The decimal text of a number.
pub open spec fn decimal(n: nat) -> Seq<char>
    decreases n,
{
    if n < 10 {
        seq![digit_char(n)]
    } else {
        decimal(n / 10).push(digit_char(n % 10))
    }
}

/// The text of a framed message: the length header, a blank line, then the
/// body.
pub open spec fn frame_text(body: Seq<char>) -> Seq<char> {
    "Content-Length: "@ + decimal(utf8_len(body)) + "\r\n\r\n"@ + body
}

fn digit(d: usize) -> (c: char)
    requires
        d < 10,
    ensures
        c == digit_char(d as nat),
{
    if d == 0 {
        '0'
    } else if d == 1 {
        '1'
    } else if d == 2 {
        '2'
    } else if d == 3 {
        '3'
    } else if d == 4 {
        '4'
    } else if d == 5 {
        '5'
    } else if d == 6 {
        '6'
    } else if d == 7 {
        '7'
    } else if d == 8 {
        '8'
    } else {
        '9'
    }
}

fn decimal_chars(n: usize) -> (r: Vec<char>)
    ensures
        r@ == decimal(n as nat),
    decreases n,
{
    if n < 10 {
        let mut v: Vec<char> = Vec::new();
        v.push(digit(n));
        assert(v@ =~= decimal(n as nat));
        v
    } else {
        let mut v = decimal_chars(n / 10);
        v.push(digit(n % 10));
        v
    }
}

/// Frame a message body for sending: `Content-Length: <bytes>`, a blank
/// line, then the body, as UTF-8 bytes.
pub fn frame_message(body: &str) -> (r: Vec<u8>)
    requires
        utf8_len(body@) <= usize::MAX,
    ensures
        r@ == encode_utf8(frame_text(body@)),
{
    let mut text = String::from_str("Content-Length: ");
    let n = body.len();
    assert(n as nat == utf8_len(body@));
    let digits = decimal_chars(n);
    let number = string_from_chars(&digits);
    text.append(number.as_str());
    assert(text@ == "Content-Length: "@ + decimal(utf8_len(body@)));
    text.append("\r\n\r\n");
    text.append(body);
    assert(text@ =~= frame_text(body@));
    let bytes = text.as_str().as_bytes();
    let r = vstd::slice::slice_to_vec(bytes);
    r
}

proof fn lemma_digit_char(d: nat)
    requires
        d < 10,
    ensures
        is_digit(digit_char(d)),
        digit_value(digit_char(d)) == d,
        (digit_char(d) as u32) < 0x80,
{
}

proof fn lemma_decimal(n: nat)
    ensures
        decimal(n).len() > 0,
        all_digits(decimal(n)),
        digits_value(decimal(n)) == n,
        forall|i: int| 0 <= i < decimal(n).len() ==> (#[trigger] decimal(n)[i] as u32) < 0x80,
    decreases n,
{
    if n < 10 {
        lemma_digit_char(n);
        assert(decimal(n).drop_last() =~= Seq::<char>::empty());
        assert(digits_value(Seq::<char>::empty()) == 0);
        assert(digits_value(decimal(n)) == digits_value(decimal(n).drop_last()) * 10 + digit_value(
            decimal(n).last(),
        ));
    } else {
        lemma_decimal(n / 10);
        lemma_digit_char(n % 10);
        let d = decimal(n);
        assert(d.drop_last() =~= decimal(n / 10));
        assert(d.last() == digit_char(n % 10));
        assert(n == (n / 10) * 10 + n % 10);
        assert(digits_value(d) == digits_value(decimal(n / 10)) * 10 + digit_value(digit_char(n % 10)));
        assert(all_digits(d)) by {
            assert forall|i: int| 0 <= i < d.len() implies is_digit(#[trigger] d[i]) by {
                if i < d.len() - 1 {
                    assert(d[i] == decimal(n / 10)[i]);
                }
            }
        }
        assert forall|i: int| 0 <= i < d.len() implies (#[trigger] d[i] as u32) < 0x80 by {
            if i < d.len() - 1 {
                assert(d[i] == decimal(n / 10)[i]);
            }
        }
    }
}

proof fn lemma_encode_concat(a: Seq<char>, b: Seq<char>)
    ensures
        encode_utf8(a + b) == encode_utf8(a) + encode_utf8(b),
    decreases b.len(),
{
    if b.len() == 0 {
        assert(a + b =~= a);
        assert(encode_utf8(b) =~= Seq::<u8>::empty());
        assert(encode_utf8(a) + encode_utf8(b) =~= encode_utf8(a));
    } else {
        let c = b.last();
        let b0 = b.drop_last();
        lemma_encode_concat(a, b0);
        assert(a + b =~= (a + b0).push(c));
        assert(b =~= b0.push(c));
        lemma_encode_push(a + b0, c);
        lemma_encode_push(b0, c);
        assert(encode_utf8(a + b) =~= encode_utf8(a) + encode_utf8(b));
    }
}

/// In a text of one-byte chars, the first `k` chars take `k` bytes.
proof fn lemma_ascii_prefix(t: Seq<char>, k: int)
    requires
        0 <= k <= t.len(),
        forall|i: int| 0 <= i < k ==> (#[trigger] t[i] as u32) < 0x80,
    ensures
        utf8_len(t.take(k)) == k,
    decreases k,
{
    if k == 0 {
        assert(t.take(0) =~= Seq::<char>::empty());
        assert(encode_utf8(Seq::<char>::empty()) =~= Seq::<u8>::empty());
    } else {
        lemma_ascii_prefix(t, k - 1);
        lemma_take_len(t, k - 1);
    }
}

proof fn lemma_char_at_ascii(t: Seq<char>, n: int, k: int)
    requires
        0 <= k <= n <= t.len(),
        forall|i: int| 0 <= i < n ==> (#[trigger] t[i] as u32) < 0x80,
    ensures
        char_at_byte(t, n, k) == Some(n),
    decreases n - k,
{
    lemma_ascii_prefix(t, k);
    if k < n {
        lemma_char_at_ascii(t, n, k + 1);
    }
}

proof fn lemma_char_at_end(t: Seq<char>, k: int)
    requires
        0 <= k <= t.len(),
    ensures
        char_at_byte(t, utf8_len(t) as int, k) == Some(t.len() as int),
    decreases t.len() - k,
{
    if k < t.len() {
        lemma_take_len(t, k);
        lemma_take_le(t, k + 1);
        vstd::utf8::char_is_scalar(t[k]);
        lemma_char_at_end(t, k + 1);
    } else {
        assert(t.take(k) =~= t);
    }
}

proof fn lemma_find_sep_skip(s: Seq<char>, i: int, j: int)
    requires
        0 <= i <= j,
        forall|k: int| i <= k < j ==> !sep_at(s, k),
    ensures
        find_sep(s, i) == find_sep(s, j) || (find_sep(s, i) is None && j + 4 > s.len()),
    decreases j - i,
{
    if i < j {
        lemma_find_sep_skip(s, i + 1, j);
    }
}

proof fn lemma_lines_single(h: Seq<char>)
    requires
        forall|i: int| 0 <= i < h.len() ==> h[i] != '\n',
    ensures
        lines_of(h) == seq![h],
    decreases h.len(),
{
    if h.len() > 0 {
        lemma_lines_single(h.drop_last());
        assert(h.last() != '\n');
        assert(h.drop_last().push(h.last()) =~= h);
        assert(lines_of(h) =~= seq![h]);
    } else {
        assert(h =~= Seq::<char>::empty());
    }
}

proof fn lemma_trim_start_stop(l: Seq<char>)
    requires
        l.len() > 0,
        !char_is_whitespace(l[0]),
    ensures
        trim_start(l) == l,
{
}

proof fn lemma_trim_end_stop(l: Seq<char>)
    requires
        l.len() > 0,
        !char_is_whitespace(l.last()),
    ensures
        trim_end(l) == l,
{
}

/// The header line of a framed body of `n` bytes gives `n` as the length.
proof fn lemma_header_line(n: nat)
    requires
        n <= usize::MAX,
    ensures
        length_line("Content-Length: "@ + decimal(n)) == LengthLine::Length(n),
        forall|i: int|
            0 <= i < ("Content-Length: "@ + decimal(n)).len() ==> (#[trigger] ("Content-Length: "@
                + decimal(n))[i] as u32) < 0x80 && ("Content-Length: "@ + decimal(n))[i] != '\r'
                && ("Content-Length: "@ + decimal(n))[i] != '\n',
{
    reveal_strlit("content-length:");
    let h0 = "Content-Length: "@ + decimal(n);
    lemma_decimal(n);
    reveal_strlit("Content-Length: ");
    assert forall|i: int| 0 <= i < h0.len() implies '\0' <= #[trigger] h0[i] <= '\u{7f}' by {
        if i >= 16 {
            assert(h0[i] == decimal(n)[i - 16]);
        }
    }
    let lo = h0.map_values(|c: char| ascii_lower(c));
    assert(lower_text(h0) == lo);
    assert(lo.take(15) =~= "content-length:"@) by {
        assert forall|i: int| 0 <= i < 15 implies lo[i] == "content-length:"@[i] by {
            assert(h0[i] == "Content-Length: "@[i]);
        }
    }
    assert(starts_with(lower_text(h0), "content-length:"@));
    reveal_strlit("Content-Length: ");
    let dec = decimal(n);
    lemma_decimal(n);
    let prefix = "Content-Length: "@;
    let h = prefix + dec;
    assert forall|i: int| 0 <= i < h.len() implies (#[trigger] h[i] as u32) < 0x80 && h[i] != '\r'
        && h[i] != '\n' by {
        if i >= prefix.len() {
            assert(h[i] == dec[i - prefix.len()]);
            assert(is_digit(dec[i - prefix.len()]));
        }
    }
    lemma_trim_start_stop(h);
    assert(h.last() == dec.last());
    assert(is_digit(dec[dec.len() - 1]));
    lemma_trim_end_stop(h);
    assert(trimmed(h) == h);
    lemma_char_at_ascii(h, 15, 0);
    let rest = h.skip(15);
    assert(rest =~= seq![' '] + dec);
    assert(rest.drop_first() =~= dec);
    assert(is_digit(dec[0]));
    lemma_trim_start_stop(dec);
    assert(trim_start(rest) == dec);
    lemma_trim_end_stop(dec);
    assert(trimmed(rest) == dec);
    assert(parse_usize_of(dec) == Some(n as usize));
}

/// A framed message decodes whole: in the bytes of `frame_text(body)` the
/// header gives the body's length, the body starts right after the blank
/// line, and every byte is used up.
pub proof fn law_frame_roundtrip(body: Seq<char>)
    requires
        utf8_len(frame_text(body)) <= usize::MAX,
    ensures
        frame_of(encode_utf8(frame_text(body))) == (Frame::Complete {
            body_start: (utf8_len(frame_text(body)) - utf8_len(body)) as usize,
            total: utf8_len(frame_text(body)) as usize,
        }),
{
    reveal_strlit("\r\n\r\n");
    let n = utf8_len(body);
    let h = "Content-Length: "@ + decimal(n);
    let sep = "\r\n\r\n"@;
    let text = frame_text(body);
    assert(text =~= h + sep + body);
    lemma_encode_concat(h + sep, body);
    lemma_header_line(n);
    let bytes = encode_utf8(text);
    vstd::utf8::encode_utf8_valid_utf8(text);
    vstd::utf8::encode_utf8_decode_utf8(text);
    assert forall|k: int| 0 <= k < h.len() implies !sep_at(text, k) by {
        assert(text[k] == h[k]);
    }
    assert(sep_at(text, h.len() as int));
    lemma_find_sep_skip(text, 0, h.len() as int);
    assert(find_sep(text, 0) == Some(h.len() as int));
    assert(text.take(h.len() as int) =~= h);
    lemma_lines_single(h);
    assert(first_length(seq![h], 0) == LengthLine::Length(n));
    lemma_ascii_prefix(h, h.len() as int);
    assert(h.take(h.len() as int) =~= h);
    lemma_encode_concat(h, sep);
    assert(utf8_len(sep) == 4) by {
        lemma_ascii_prefix(sep, 4);
        assert(sep.take(4) =~= sep);
    }
    lemma_char_at_end(text, 0);
}

proof fn lemma_char_at_prefix(t: Seq<char>, m: int, k: int)
    requires
        0 <= k <= m <= t.len(),
    ensures
        char_at_byte(t, utf8_len(t.take(m)) as int, k) == Some(m),
    decreases m - k,
{
    if k < m {
        lemma_take_len(t, k);
        vstd::utf8::char_is_scalar(t[k]);
        assert(t.take(m).take(k + 1) =~= t.take(k + 1));
        lemma_take_le(t.take(m), k + 1);
        lemma_take_le(t, m);
        lemma_char_at_prefix(t, m, k + 1);
    } else {
        lemma_take_le(t, m);
    }
}

/// What follows a framed message does not change how it decodes: in the
/// bytes of `frame_text(body)` followed by any more text, the header still
/// gives the body's length, and the message still ends where the body does.
pub proof fn law_frame_then_rest(body: Seq<char>, rest: Seq<char>)
    requires
        utf8_len(frame_text(body) + rest) <= usize::MAX,
    ensures
        frame_of(encode_utf8(frame_text(body) + rest)) == (Frame::Complete {
            body_start: (utf8_len(frame_text(body)) - utf8_len(body)) as usize,
            total: utf8_len(frame_text(body)) as usize,
        }),
{
    reveal_strlit("\r\n\r\n");
    let n = utf8_len(body);
    let h = "Content-Length: "@ + decimal(n);
    let sep = "\r\n\r\n"@;
    let text = frame_text(body);
    let all = text + rest;
    assert(text =~= h + sep + body);
    lemma_encode_concat(text, rest);
    lemma_encode_concat(h + sep, body);
    lemma_header_line(n);
    vstd::utf8::encode_utf8_valid_utf8(all);
    vstd::utf8::encode_utf8_decode_utf8(all);
    assert forall|k: int| 0 <= k < h.len() implies !sep_at(all, k) by {
        assert(all[k] == h[k]);
    }
    assert(all[h.len() as int] == '\r' && all[h.len() as int + 1] == '\n' && all[h.len() as int + 2] == '\r'
        && all[h.len() as int + 3] == '\n') by {
        assert(all[h.len() as int] == sep[0]);
        assert(all[h.len() as int + 1] == sep[1]);
        assert(all[h.len() as int + 2] == sep[2]);
        assert(all[h.len() as int + 3] == sep[3]);
    }
    assert(sep_at(all, h.len() as int));
    lemma_find_sep_skip(all, 0, h.len() as int);
    assert(find_sep(all, 0) == Some(h.len() as int));
    assert(all.take(h.len() as int) =~= h);
    lemma_lines_single(h);
    assert(first_length(seq![h], 0) == LengthLine::Length(n));
    lemma_ascii_prefix(h, h.len() as int);
    assert(h.take(h.len() as int) =~= h);
    lemma_encode_concat(h, sep);
    assert(utf8_len(sep) == 4) by {
        lemma_ascii_prefix(sep, 4);
        assert(sep.take(4) =~= sep);
    }
    assert(all.take(text.len() as int) =~= text);
    lemma_char_at_prefix(all, text.len() as int, 0);
}

/// Read from a stream, the header line of a framed body of `n` bytes sets
/// the length to `n`, and the blank line after it ends the headers.
pub proof fn law_stream_header(n: nat, content_length: Option<usize>)
    requires
        n <= usize::MAX,
    ensures
        header_line_of("Content-Length: "@ + decimal(n) + "\r\n"@, content_length) == HeaderLine::Field(
            Some(n as usize),
        ),
        header_line_of("\r\n"@, content_length) == HeaderLine::End,
{
    reveal_strlit("Content-Length: ");
    reveal_strlit("Content-Length:");
    reveal_strlit("\r\n");
    let dec = decimal(n);
    lemma_decimal(n);
    let h = "Content-Length: "@ + dec;
    let line = h + "\r\n"@;
    assert(line[0] == 'C');
    lemma_trim_start_stop(line);
    assert(line.drop_last() =~= h.push('\r'));
    assert(h.push('\r').drop_last() =~= h);
    assert(h.last() == dec.last());
    assert(is_digit(dec[dec.len() - 1]));
    lemma_trim_end_stop(h);
    assert(trim_end(h.push('\r')) == h);
    assert(trim_end(line) == h);
    assert(trimmed(line) == h);
    assert(h.take(15) =~= "Content-Length:"@);
    let rest = h.skip(15);
    assert(rest =~= seq![' '] + dec);
    assert(rest.drop_first() =~= dec);
    assert(is_digit(dec[0]));
    lemma_trim_start_stop(dec);
    lemma_trim_end_stop(dec);
    assert(trimmed(rest) == dec);
    let blank = "\r\n"@;
    assert(blank.drop_first() =~= seq!['\n']);
    assert(seq!['\n'].drop_first() =~= Seq::<char>::empty());
    assert(blank[0] == '\r');
    assert(trim_start(blank) == trim_start(seq!['\n']));
    assert(trim_start(seq!['\n']) == trim_start(Seq::<char>::empty()));
    assert(trim_start(blank).len() == 0);
    assert(trim_end(Seq::<char>::empty()).len() == 0);
    assert(trimmed(blank).len() == 0);
}

} // verus!
