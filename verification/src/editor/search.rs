use vstd::prelude::*;

use crate::editor::buffer::Buffer;
use crate::editor::rope::{rope_char_line, rope_line_start};
use crate::geometry::Position;
use crate::text::{chars_of, str_lowercase, str_to_lowercase};

verus! {

/// Search match in a document: its start and end positions and its char
/// range.
#[derive(Debug, Clone, PartialEq, Eq)]
pub struct SearchMatch {
    pub start: Position,
    pub end: Position,
    pub char_range: std::ops::Range<usize>,
}

/// `Range`'s `Clone` (used by the derived `Clone` of [`SearchMatch`]);
/// nothing is claimed of the copy.
pub assume_specification<Idx: Clone>[ <std::ops::Range<Idx> as Clone>::clone ](
    r: &std::ops::Range<Idx>,
) -> std::ops::Range<Idx>;

fn copy_match(m: &SearchMatch) -> (r: SearchMatch)
    ensures
        r == *m,
{
    SearchMatch { start: m.start, end: m.end, char_range: m.char_range.start..m.char_range.end }
}

/// The needle `q` occurs in the haystack `h` at char index `i`.
pub open spec fn match_at(h: Seq<char>, q: Seq<char>, i: int) -> bool {
    &&& 0 <= i
    &&& i + q.len() <= h.len()
    &&& h.subrange(i, i + q.len()) == q
}

/// The start indices of the occurrences of `q` in `h` found by scanning left
/// to right from `from`, each search resuming after the previous occurrence
/// (so they do not overlap); the scan stops at the first start past `limit`.
pub open spec fn match_starts(h: Seq<char>, q: Seq<char>, limit: int, from: int) -> Seq<int>
    decreases h.len() - from,
{
    if q.len() == 0 || from < 0 || from + q.len() > h.len() || from > limit {
        Seq::empty()
    } else if match_at(h, q, from) {
        seq![from] + match_starts(h, q, limit, from + q.len())
    } else {
        match_starts(h, q, limit, from + 1)
    }
}

/// The position of char index `i` of `t`: its line and its column there.
pub open spec fn position_of(t: Seq<char>, i: int) -> Position {
    let line = rope_char_line(t, i as nat);
    Position { line: line as usize, col: (i - rope_line_start(t, line)) as usize }
}

/// The match covering chars `s..e` of `t`.
pub open spec fn match_of(t: Seq<char>, s: int, e: int) -> SearchMatch {
    SearchMatch {
        start: position_of(t, s),
        end: position_of(t, e),
        char_range: std::ops::Range { start: s as usize, end: e as usize },
    }
}

/// Where the occurrences are looked for: in the text itself, or, ignoring
/// case, in the lowercase of the whole text (`str::to_lowercase`), with the
/// lowercase of the pattern as needle.
pub open spec fn haystack(t: Seq<char>, case_sensitive: bool) -> Seq<char> {
    if case_sensitive {
        t
    } else {
        str_lowercase(t)
    }
}

/// All occurrences of the pattern, as matches. A match found at char index
/// `s` covers chars `s..s + p.len()` of the text; the search stops before a
/// match that would run past the end of the text.
pub open spec fn spec_find_all(t: Seq<char>, p: Seq<char>, case_sensitive: bool) -> Seq<SearchMatch> {
    if p.len() == 0 {
        Seq::empty()
    } else {
        match_starts(
            haystack(t, case_sensitive),
            haystack(p, case_sensitive),
            t.len() - p.len(),
            0,
        ).map_values(|s: int| match_of(t, s, s + p.len()))
    }
}

fn matches_here(h: &Vec<char>, q: &Vec<char>, i: usize) -> (r: bool)
    requires
        i + q@.len() <= h@.len(),
    ensures
        r == match_at(h@, q@, i as int),
{
    let hl = h.len();
    let mut k: usize = 0;
    while k < q.len()
        invariant
            hl == h@.len(),
            k <= q@.len(),
            i + q@.len() <= h@.len(),
            forall|j: int| 0 <= j < k ==> #[trigger] h@[i + j] == q@[j],
        decreases q@.len() - k,
    {
        if h[i + k] != q[k] {
            assert(h@.subrange(i as int, i + q@.len())[k as int] != q@[k as int]);
            return false;
        }
        k = k + 1;
    }
    assert forall|j: int| 0 <= j < q@.len() implies h@.subrange(i as int, i + q@.len())[j]
        == q@[j] by {
        assert(h@[i + j] == q@[j]);
    }
    assert(h@.subrange(i as int, i + q@.len()) =~= q@);
    true
}

fn match_at_index(buffer: &Buffer, s: usize, e: usize) -> (m: SearchMatch)
    requires
        s <= e <= buffer@.len(),
    ensures
        m == match_of(buffer@, s as int, e as int),
{
    let start_line = buffer.char_to_line(s);
    let start_col = s - buffer.line_to_char(start_line);
    let end_line = buffer.char_to_line(e);
    let end_col = e - buffer.line_to_char(end_line);
    SearchMatch {
        start: Position::new(start_line, start_col),
        end: Position::new(end_line, end_col),
        char_range: s..e,
    }
}

/// Find all occurrences of a pattern in the buffer, left to right and not
/// overlapping. Ignoring case, the lowercase pattern is looked for in the
/// lowercase text.
pub fn find_all(buffer: &Buffer, pattern: &str, case_sensitive: bool) -> (r: Vec<SearchMatch>)
    ensures
        r@ == spec_find_all(buffer@, pattern@, case_sensitive),
{
    let mut matches: Vec<SearchMatch> = Vec::new();
    let p = chars_of(pattern);
    let plen = p.len();
    let tlen = buffer.char_count();
    if plen == 0 || plen > tlen {
        proof {
            if plen > 0 {
                let hh = haystack(buffer@, case_sensitive);
                let qq = haystack(pattern@, case_sensitive);
                assert(match_starts(hh, qq, buffer@.len() - pattern@.len(), 0) =~= Seq::<int>::empty());
            }
        }
        assert(spec_find_all(buffer@, pattern@, case_sensitive) =~= Seq::<SearchMatch>::empty());
        return matches;
    }
    let text = buffer.text();
    let h: Vec<char>;
    let q: Vec<char>;
    if case_sensitive {
        h = chars_of(text.as_str());
        q = p;
    } else {
        let lt = str_to_lowercase(text.as_str());
        let lp = str_to_lowercase(pattern);
        h = chars_of(lt.as_str());
        q = chars_of(lp.as_str());
    }
    let limit: usize = tlen - plen;
    let qlen = q.len();
    let hlen = h.len();
    if qlen == 0 {
        assert(match_starts(h@, q@, limit as int, 0) =~= Seq::<int>::empty());
        assert(spec_find_all(buffer@, pattern@, case_sensitive) =~= Seq::<SearchMatch>::empty());
        return matches;
    }
    let ghost all = match_starts(h@, q@, limit as int, 0);
    let ghost mut found: Seq<int> = Seq::empty();
    let mut i: usize = 0;
    while i <= limit && qlen <= hlen && i <= hlen - qlen
        invariant
            h@ == haystack(buffer@, case_sensitive),
            q@ == haystack(pattern@, case_sensitive),
            plen == pattern@.len(),
            tlen == buffer@.len(),
            0 < plen <= tlen,
            limit == tlen - plen,
            qlen == q@.len(),
            hlen == h@.len(),
            qlen > 0,
            all == found + match_starts(h@, q@, limit as int, i as int),
            matches@ == found.map_values(|s: int| match_of(buffer@, s, s + plen)),
        decreases hlen + 1 - i,
    {
        if matches_here(&h, &q, i) {
            let m = match_at_index(buffer, i, i + plen);
            matches.push(m);
            proof {
                assert(match_starts(h@, q@, limit as int, i as int) == seq![i as int]
                    + match_starts(h@, q@, limit as int, i + qlen));
                found = found.push(i as int);
                assert(all =~= found + match_starts(h@, q@, limit as int, i + qlen));
                assert(matches@ =~= found.map_values(|s: int| match_of(buffer@, s, s + plen)));
            }
            i = i + qlen;
        } else {
            i = i + 1;
        }
    }
    assert(match_starts(h@, q@, limit as int, i as int) =~= Seq::<int>::empty());
    assert(all =~= found);
    matches
}

/// Strict order on positions.
pub open spec fn pos_lt(a: Position, b: Position) -> bool {
    a.line < b.line || (a.line == b.line && a.col < b.col)
}

/// The index of the first match starting after `after`, if any.
pub open spec fn first_after(ms: Seq<SearchMatch>, after: Position, from: int) -> Option<int>
    decreases ms.len() - from,
{
    if from < 0 || from >= ms.len() {
        None
    } else if pos_lt(after, ms[from].start) {
        Some(from)
    } else {
        first_after(ms, after, from + 1)
    }
}

/// The next match after a position: the first one starting after it, else
/// (wrapping around) the first one in the buffer.
pub open spec fn spec_find_next(ms: Seq<SearchMatch>, after: Position) -> Option<SearchMatch> {
    match first_after(ms, after, 0) {
        Some(k) => Some(ms[k]),
        None => if ms.len() > 0 {
            Some(ms[0])
        } else {
            None
        },
    }
}

/// Find the next match after a given position, wrapping around.
pub fn find_next(buffer: &Buffer, pattern: &str, after: Position, case_sensitive: bool) -> (r:
    Option<SearchMatch>)
    ensures
        r == spec_find_next(spec_find_all(buffer@, pattern@, case_sensitive), after),
{
    let matches = find_all(buffer, pattern, case_sensitive);
    let mut i: usize = 0;
    while i < matches.len()
        invariant
            i <= matches@.len(),
            first_after(matches@, after, 0) == first_after(matches@, after, i as int),
            matches@ == spec_find_all(buffer@, pattern@, case_sensitive),
        decreases matches@.len() - i,
    {
        let m = &matches[i];
        if after.line < m.start.line || (after.line == m.start.line && after.col < m.start.col) {
            assert(pos_lt(after, matches@[i as int].start));
            assert(first_after(matches@, after, i as int) == Some(i as int));
            return Some(copy_match(&matches[i]));
        }
        i = i + 1;
    }
    if matches.len() > 0 {
        Some(copy_match(&matches[0]))
    } else {
        None
    }
}

proof fn lemma_first_after(ms: Seq<SearchMatch>, after: Position, from: int)
    requires
        0 <= from,
    ensures
        match first_after(ms, after, from) {
            Some(j) => from <= j < ms.len() && (after.line < ms[j].start.line || (after.line
                == ms[j].start.line && after.col < ms[j].start.col)) && forall|i: int|
                from <= i < j ==> !(after.line < #[trigger] ms[i].start.line || (after.line
                    == ms[i].start.line && after.col < ms[i].start.col)),
            None => forall|i: int|
                from <= i < ms.len() ==> !(after.line < #[trigger] ms[i].start.line || (after.line
                    == ms[i].start.line && after.col < ms[i].start.col)),
        },
    decreases ms.len() - from,
{
    if from < ms.len() && !pos_lt(after, ms[from].start) {
        lemma_first_after(ms, after, from + 1);
    }
}

/// The next match after a position is the earliest listed match that
/// starts strictly after it in (line, column) order; only when no match
/// starts after it does the search wrap around to the first match.
pub proof fn law_find_next_after(ms: Seq<SearchMatch>, after: Position)
    ensures
        (exists|k: int|
            0 <= k < ms.len() && (after.line < #[trigger] ms[k].start.line || (after.line
                == ms[k].start.line && after.col < ms[k].start.col))) ==> exists|j: int|
            0 <= j < ms.len() && spec_find_next(ms, after) == Some(ms[j]) && (after.line
                < ms[j].start.line || (after.line == ms[j].start.line && after.col
                < ms[j].start.col)) && forall|i: int|
                0 <= i < j ==> !(after.line < #[trigger] ms[i].start.line || (after.line
                    == ms[i].start.line && after.col < ms[i].start.col)),
        !(exists|k: int|
            0 <= k < ms.len() && (after.line < #[trigger] ms[k].start.line || (after.line
                == ms[k].start.line && after.col < ms[k].start.col))) ==> spec_find_next(ms, after)
            == (if ms.len() > 0 {
            Some(ms[0])
        } else {
            None
        }),
{
    lemma_first_after(ms, after, 0);
    match first_after(ms, after, 0) {
        Some(j) => {
            assert(spec_find_next(ms, after) == Some(ms[j]));
        },
        None => {},
    }
}

} // verus!
