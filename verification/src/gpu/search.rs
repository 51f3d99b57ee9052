//! In-file search of the editor view: what its keys do, and where the
//! query occurs.

use vstd::prelude::*;
use vstd::string::StringSliceAdditionalSpecFns;
use vstd::utf8::encode_utf8;

use crate::event::{KeyCode, KeyEvent, Modifiers};
use crate::text::{str_lowercase, str_to_lowercase, string_from_chars};

verus! {

/// The needle's bytes occur in the haystack's at byte `i`.
pub open spec fn occurs_at(hay: Seq<u8>, needle: Seq<u8>, i: int) -> bool {
    0 <= i && i + needle.len() <= hay.len() && hay.subrange(i, i + needle.len()) == needle
}

/// `str::find` on the text from byte `i` on: the first byte at or after `i`
/// where the needle occurs.
pub open spec fn first_occurrence(hay: Seq<u8>, needle: Seq<u8>, i: int) -> Option<int>
    decreases hay.len() + 1 - i,
{
    if i < 0 || i + needle.len() > hay.len() {
        None
    } else if occurs_at(hay, needle, i) {
        Some(i)
    } else {
        first_occurrence(hay, needle, i + 1)
    }
}

/// Byte `k` is inside a char (a UTF-8 continuation byte).
pub open spec fn inside_char(hay: Seq<u8>, k: int) -> bool {
    0 <= k < hay.len() && 0x80 <= hay[k] <= 0xbf
}

/// The start columns (in bytes) of the matches in a lowercased line, found
/// from byte `start` on: each search resumes one byte after the previous
/// match. There is no answer (`None`) when a search would resume inside a
/// char or past the end, or its position overflows.
pub open spec fn line_matches(hay: Seq<u8>, needle: Seq<u8>, start: int) -> Option<Seq<int>>
    decreases hay.len() + 1 - start,
{
    if start < 0 || start > hay.len() || inside_char(hay, start) {
        None
    } else {
        match first_occurrence(hay, needle, start) {
            None => Some(Seq::empty()),
            Some(col) => if col + 1 > usize::MAX || col < start || col > hay.len() {
                None
            } else {
                match line_matches(hay, needle, col + 1) {
                    None => None,
                    Some(rest) => Some(seq![col] + rest),
                }
            },
        }
    }
}

/// The matches of one line: `(line, start column, start column + the
/// query's byte length)`.
pub open spec fn line_entries(line: int, cols: Seq<int>, qlen: int) -> Option<Seq<(usize, usize, usize)>> {
    if exists|k: int| 0 <= k < cols.len() && cols[k] + qlen > usize::MAX {
        None
    } else {
        Some(cols.map_values(|c: int| (line as usize, c as usize, (c + qlen) as usize)))
    }
}

/// The matches of the first `n` lines, in order.
pub open spec fn search_matches(query: Seq<char>, lines: Seq<Seq<char>>, n: int) -> Option<
    Seq<(usize, usize, usize)>,
>
    decreases n,
{
    if n <= 0 {
        Some(Seq::empty())
    } else {
        match search_matches(query, lines, n - 1) {
            None => None,
            Some(before) => {
                let hay = encode_utf8(str_lowercase(lines[n - 1]));
                let needle = encode_utf8(str_lowercase(query));
                match line_matches(hay, needle, 0) {
                    None => None,
                    Some(cols) => match line_entries(n - 1, cols, encode_utf8(query).len() as int) {
                        None => None,
                        Some(entries) => Some(before + entries),
                    },
                }
            },
        }
    }
}

/// Where a query occurs in the lines of a document, case-insensitively:
/// no matches for an empty query.
pub open spec fn all_search_matches(query: Seq<char>, lines: Seq<Seq<char>>) -> Option<
    Seq<(usize, usize, usize)>,
> {
    if query.len() == 0 {
        Some(Seq::empty())
    } else {
        search_matches(query, lines, lines.len() as int)
    }
}

proof fn lemma_search_fails_on(query: Seq<char>, lines: Seq<Seq<char>>, n: int, m: int)
    requires
        n <= m,
        search_matches(query, lines, n) is None,
    ensures
        search_matches(query, lines, m) is None,
    decreases m - n,
{
    if n < m {
        lemma_search_fails_on(query, lines, n, m - 1);
    }
}

proof fn lemma_first_occurrence_range(hay: Seq<u8>, needle: Seq<u8>, i: int)
    ensures
        first_occurrence(hay, needle, i) matches Some(j) ==> i <= j && occurs_at(hay, needle, j),
    decreases hay.len() + 1 - i,
{
    if !(i < 0 || i + needle.len() > hay.len()) && !occurs_at(hay, needle, i) {
        lemma_first_occurrence_range(hay, needle, i + 1);
    }
}

fn occurs(hay: &[u8], needle: &[u8], i: usize) -> (r: bool)
    requires
        i + needle@.len() <= hay@.len(),
    ensures
        r == occurs_at(hay@, needle@, i as int),
{
    let mut k: usize = 0;
    assert(hay@.len() == hay.len());
    while k < needle.len()
        invariant
            hay@.len() <= usize::MAX,
            i + needle@.len() <= hay@.len(),
            k <= needle@.len(),
            forall|t: int| 0 <= t < k ==> hay@[i + t] == needle@[t],
        decreases needle@.len() - k,
    {
        if hay[i + k] != needle[k] {
            assert(hay@.subrange(i as int, i + needle@.len())[k as int] != needle@[k as int]);
            return false;
        }
        k = k + 1;
    }
    assert(hay@.subrange(i as int, i + needle@.len()) =~= needle@);
    true
}

fn find_from(hay: &[u8], needle: &[u8], start: usize) -> (r: Option<usize>)
    ensures
        match r {
            Some(j) => first_occurrence(hay@, needle@, start as int) == Some(j as int),
            None => first_occurrence(hay@, needle@, start as int) is None,
        },
{
    if needle.len() > hay.len() {
        return None;
    }
    let last = hay.len() - needle.len();
    let mut i: usize = start;
    while i <= last
        invariant
            last == hay@.len() - needle@.len(),
            start <= i,
            first_occurrence(hay@, needle@, start as int) == first_occurrence(hay@, needle@, i as int),
        decreases last + 1 - i,
    {
        if occurs(hay, needle, i) {
            return Some(i);
        }
        if i == last {
            return None;
        }
        i = i + 1;
    }
    None
}

fn match_columns(hay: &[u8], needle: &[u8]) -> (r: Option<Vec<usize>>)
    ensures
        match r {
            Some(cols) => line_matches(hay@, needle@, 0) == Some(cols@.map_values(|c: usize| c as int)),
            None => line_matches(hay@, needle@, 0) is None,
        },
{
    let mut cols: Vec<usize> = Vec::new();
    let mut start: usize = 0;
    loop
        invariant
            start <= hay@.len() + 1,
            line_matches(hay@, needle@, 0) == match line_matches(hay@, needle@, start as int) {
                None => None,
                Some(rest) => Some(cols@.map_values(|c: usize| c as int) + rest),
            },
        decreases hay@.len() + 1 - start,
    {
        if start > hay.len() {
            return None;
        }
        if start < hay.len() && 0x80 <= hay[start] && hay[start] <= 0xbf {
            return None;
        }
        match find_from(hay, needle, start) {
            None => {
                assert(cols@.map_values(|c: usize| c as int) + Seq::<int>::empty() =~= cols@.map_values(
                    |c: usize| c as int,
                ));
                return Some(cols);
            },
            Some(col) => {
                proof {
                    lemma_first_occurrence_range(hay@, needle@, start as int);
                }
                if col == usize::MAX {
                    return None;
                }
                let ghost before = cols@.map_values(|c: usize| c as int);
                cols.push(col);
                proof {
                    assert(cols@.map_values(|c: usize| c as int) =~= before.push(col as int));
                    match line_matches(hay@, needle@, col + 1) {
                        None => {},
                        Some(rest) => {
                            assert(before + (seq![col as int] + rest) =~= before.push(col as int) + rest);
                        },
                    }
                }
                start = col + 1;
            },
        }
    }
}

/// Where the query occurs in the given lines, case-insensitively (both
/// lowercased): `(line, start byte, start byte + the query's byte length)`
/// for each match, lines in order and matches left to right, a search
/// resuming one byte after each match. `None` where that search cannot go
/// on: it would resume inside a char (a match starting with a multi-byte
/// char) or past a line's end, or a position overflows.
pub fn update_search_matches(query: &str, lines: &Vec<String>) -> (r: Option<Vec<(usize, usize, usize)>>)
    ensures
        match r {
            Some(m) => all_search_matches(query@, lines@.map_values(|l: String| l@)) == Some(m@),
            None => all_search_matches(query@, lines@.map_values(|l: String| l@)) is None,
        },
{
    let ghost ls = lines@.map_values(|l: String| l@);
    let mut result: Vec<(usize, usize, usize)> = Vec::new();
    let qbytes = query.as_bytes();
    let qlen = qbytes.len();
    if qlen == 0 {
        proof {
            assert(query@.len() == 0) by {
                if query@.len() > 0 {
                    assert(encode_utf8(query@) == vstd::utf8::encode_scalar(query@[0] as u32)
                        + encode_utf8(query@.drop_first()));
                }
            }
        }
        return Some(result);
    }
    assert(query@.len() > 0) by {
        if query@.len() == 0 {
            assert(query@ =~= Seq::<char>::empty());
            assert(encode_utf8(query@) =~= Seq::<u8>::empty());
        }
    }
    let lower_query = str_to_lowercase(query);
    let needle = lower_query.as_str().as_bytes();
    let mut i: usize = 0;
    while i < lines.len()
        invariant
            i <= lines@.len(),
            ls == lines@.map_values(|l: String| l@),
            query@.len() > 0,
            qlen == encode_utf8(query@).len(),
            needle@ == encode_utf8(str_lowercase(query@)),
            search_matches(query@, ls, i as int) == Some(result@),
        decreases lines@.len() - i,
    {
        let lower_line = str_to_lowercase(lines[i].as_str());
        let hay = lower_line.as_str().as_bytes();
        proof {
            assert(ls[i as int] == lines@[i as int]@);
        }
        let cols = match match_columns(hay, needle) {
            Some(cols) => cols,
            None => {
                proof {
                    lemma_search_fails_on(query@, ls, i + 1, ls.len() as int);
                }
                return None;
            },
        };
        let ghost before = result@;
        let ghost cs = cols@.map_values(|c: usize| c as int);
        let mut k: usize = 0;
        while k < cols.len()
            invariant
                i < lines@.len(),
                ls == lines@.map_values(|l: String| l@),
                qlen == encode_utf8(query@).len(),
                search_matches(query@, ls, i as int) == Some(before),
                line_matches(encode_utf8(str_lowercase(ls[i as int])), encode_utf8(str_lowercase(query@)), 0)
                    == Some(cs),
                k <= cols@.len(),
                cs == cols@.map_values(|c: usize| c as int),
                forall|t: int| 0 <= t < k ==> cs[t] + qlen <= usize::MAX,
                result@ == before + cs.take(k as int).map_values(
                    |c: int| (i as usize, c as usize, (c + qlen) as usize),
                ),
            decreases cols@.len() - k,
        {
            let col = cols[k];
            if col > usize::MAX - qlen {
                proof {
                    assert(cs[k as int] + qlen > usize::MAX);
                    assert(line_entries(i as int, cs, qlen as int) is None);
                    lemma_search_fails_on(query@, ls, i + 1, ls.len() as int);
                }
                return None;
            }
            result.push((i, col, col + qlen));
            k = k + 1;
            assert(result@ =~= before + cs.take(k as int).map_values(
                |c: int| (i as usize, c as usize, (c + qlen) as usize),
            ));
        }
        proof {
            assert(cs.take(k as int) =~= cs);
            assert(ls[i as int] == lines@[i as int]@);
            assert(line_entries(i as int, cs, qlen as int) == Some(
                cs.map_values(|c: int| (i as usize, c as usize, (c + qlen) as usize)),
            ));
        }
        i = i + 1;
    }
    Some(result)
}

/// What a key did to the search.
#[derive(Debug, Clone, Copy, PartialEq, Eq, Structural)]
pub enum SearchKey {
    /// The search did not take the key; it goes to the screen.
    Pass,
    /// The search took the key.
    Handled,
    /// The search took the key; the cursor goes to this match.
    JumpTo { line: usize, col: usize },
    /// The search took the key, but the query cannot be searched for (see
    /// [`update_search_matches`]); it has no matches.
    Unsearchable,
}

/// The state of the in-file search: whether it is open, the query, its
/// matches, and the current match.
#[derive(Debug)]
pub struct SearchState {
    active: bool,
    query: Vec<char>,
    matches: Vec<(usize, usize, usize)>,
    current_match: usize,
}

pub struct SearchView {
    pub active: bool,
    pub query: Seq<char>,
    pub matches: Seq<(usize, usize, usize)>,
    pub current: usize,
}

/// The search after the query changed: its matches, the first current.
pub open spec fn with_query(s: SearchView, query: Seq<char>, lines: Seq<Seq<char>>) -> (SearchView, SearchKey) {
    match all_search_matches(query, lines) {
        Some(m) => (
            SearchView { query, matches: m, current: 0, ..s },
            if m.len() > 0 {
                SearchKey::JumpTo { line: m[0].0, col: m[0].1 }
            } else {
                SearchKey::Handled
            },
        ),
        None => (SearchView { query, matches: Seq::empty(), current: 0, ..s }, SearchKey::Unsearchable),
    }
}

/// What a key does to the search, in the editor screen (`in_editor`) or
/// not, over the lines of the focused document. `Cmd+F` opens or closes the
/// search (closing forgets the query); while it is open, Escape closes it,
/// Enter goes to the next match (round), Backspace and typed chars edit the
/// query (a typed char also goes to the first match), and other keys do
/// nothing; every other key passes to the screen.
pub open spec fn search_step(s: SearchView, key: KeyEvent, in_editor: bool, lines: Seq<Seq<char>>) -> (
    SearchView,
    SearchKey,
) {
    if key.code == KeyCode::Char('f') && key.modifiers.spec_contains(Modifiers(8)) && in_editor {
        if s.active {
            (SearchView { active: false, query: Seq::empty(), matches: Seq::empty(), ..s }, SearchKey::Handled)
        } else {
            (SearchView { active: true, ..s }, SearchKey::Handled)
        }
    } else if s.active && in_editor {
        match key.code {
            KeyCode::Escape => (
                SearchView { active: false, query: Seq::empty(), matches: Seq::empty(), ..s },
                SearchKey::Handled,
            ),
            KeyCode::Enter => if s.matches.len() > 0 {
                let c = ((s.current + 1) % (s.matches.len() as int)) as usize;
                (SearchView { current: c, ..s }, SearchKey::JumpTo { line: s.matches[c as int].0, col: s.matches[c as int].1 })
            } else {
                (s, SearchKey::Handled)
            },
            KeyCode::Backspace => {
                let q = if s.query.len() > 0 {
                    s.query.drop_last()
                } else {
                    s.query
                };
                let (t, _) = with_query(s, q, lines);
                (t, if t.matches.len() == 0 && all_search_matches(q, lines) is None {
                    SearchKey::Unsearchable
                } else {
                    SearchKey::Handled
                })
            },
            KeyCode::Char(c) => if key.modifiers == Modifiers(0) || key.modifiers == Modifiers(4) {
                with_query(s, s.query.push(c), lines)
            } else {
                (s, SearchKey::Handled)
            },
            _ => (s, SearchKey::Handled),
        }
    } else {
        (s, SearchKey::Pass)
    }
}

impl SearchState {
    pub closed spec fn view(self) -> SearchView {
        SearchView {
            active: self.active,
            query: self.query@,
            matches: self.matches@,
            current: self.current_match,
        }
    }

    /// The current match is one of the matches, when there are any.
    #[verifier::type_invariant]
    spec fn wf(self) -> bool {
        self.matches@.len() > 0 ==> self.current_match < self.matches@.len()
    }

    /// A closed search with no query.
    pub fn new() -> (s: SearchState)
        ensures
            !s.view().active,
            s.view().query.len() == 0,
            s.view().matches.len() == 0,
            s.view().current == 0,
    {
        SearchState { active: false, query: Vec::new(), matches: Vec::new(), current_match: 0 }
    }

    pub fn active(&self) -> (r: bool)
        ensures
            r == self.view().active,
    {
        self.active
    }

    pub fn query(&self) -> (r: String)
        ensures
            r@ == self.view().query,
    {
        string_from_chars(&self.query)
    }

    pub fn matches(&self) -> (r: &[(usize, usize, usize)])
        ensures
            r@ == self.view().matches,
    {
        self.matches.as_slice()
    }

    pub fn current_match(&self) -> (r: usize)
        ensures
            r == self.view().current,
    {
        self.current_match
    }

    fn set_query(&mut self, lines: &Vec<String>) -> (r: SearchKey)
        ensures
            (final(self).view(), r) == with_query(old(self).view(), old(self).view().query, lines@.map_values(
                |l: String| l@,
            )),
    {
        let text = string_from_chars(&self.query);
        match update_search_matches(text.as_str(), lines) {
            Some(m) => {
                self.current_match = 0;
                self.matches = m;
                if self.matches.len() > 0 {
                    SearchKey::JumpTo { line: self.matches[0].0, col: self.matches[0].1 }
                } else {
                    SearchKey::Handled
                }
            },
            None => {
                self.current_match = 0;
                self.matches = Vec::new();
                SearchKey::Unsearchable
            },
        }
    }

    /// Handle a key in the search, as `search_step` says.
    pub fn handle_key(&mut self, key: KeyEvent, in_editor: bool, lines: &Vec<String>) -> (r: SearchKey)
        ensures
            (final(self).view(), r) == search_step(old(self).view(), key, in_editor, lines@.map_values(
                |l: String| l@,
            )),
    {
        proof {
            use_type_invariant(&*self);
        }
        if key.code == KeyCode::Char('f') && key.modifiers.contains(Modifiers::SUPER()) && in_editor {
            self.active = !self.active;
            if !self.active {
                self.query = Vec::new();
                self.matches = Vec::new();
            }
            return SearchKey::Handled;
        }
        if self.active && in_editor {
            match key.code {
                KeyCode::Escape => {
                    self.active = false;
                    self.query = Vec::new();
                    self.matches = Vec::new();
                    SearchKey::Handled
                },
                KeyCode::Enter => {
                    if self.matches.len() > 0 {
                        self.current_match = (self.current_match + 1) % self.matches.len();
                        let (line, col, _) = self.matches[self.current_match];
                        SearchKey::JumpTo { line, col }
                    } else {
                        SearchKey::Handled
                    }
                },
                KeyCode::Backspace => {
                    if self.query.len() > 0 {
                        let mut query: Vec<char> = Vec::new();
                        std::mem::swap(&mut query, &mut self.query);
                        query.pop();
                        self.query = query;
                    }
                    match self.set_query(lines) {
                        SearchKey::Unsearchable => SearchKey::Unsearchable,
                        _ => SearchKey::Handled,
                    }
                },
                KeyCode::Char(c) => {
                    if key.modifiers == Modifiers::NONE() || key.modifiers == Modifiers::SHIFT() {
                        let mut query: Vec<char> = Vec::new();
                        std::mem::swap(&mut query, &mut self.query);
                        query.push(c);
                        self.query = query;
                        self.set_query(lines)
                    } else {
                        SearchKey::Handled
                    }
                },
                _ => SearchKey::Handled,
            }
        } else {
            SearchKey::Pass
        }
    }
}

} // verus!
