//! The diagnostics last published for each document.

use vstd::prelude::*;

use crate::lsp::symbols::LspRange;
use crate::text::str_eq;

verus! {

/// The severity a diagnostic reports an error with.
pub const SEVERITY_ERROR: i32 = 1;

/// The severity a diagnostic reports a warning with.
pub const SEVERITY_WARNING: i32 = 2;

/// A diagnostic published by a language server.
#[derive(Debug, Clone)]
pub struct Diagnostic {
    pub range: LspRange,
    pub severity: Option<i32>,
    pub message: String,
    pub source: Option<String>,
}

pub open spec fn entry_key(e: (String, Vec<Diagnostic>)) -> Seq<char> {
    e.0@
}

/// No document occurs twice.
pub open spec fn unique_entries(s: Seq<(String, Vec<Diagnostic>)>) -> bool {
    forall|i: int, j: int| 0 <= i < j < s.len() ==> entry_key(#[trigger] s[i]) != entry_key(#[trigger] s[j])
}

/// The diagnostics by document.
pub open spec fn entry_map(s: Seq<(String, Vec<Diagnostic>)>) -> Map<Seq<char>, Seq<Diagnostic>> {
    Map::new(
        |k: Seq<char>| exists|i: int| 0 <= i < s.len() && entry_key(#[trigger] s[i]) == k,
        |k: Seq<char>| s[choose|i: int| 0 <= i < s.len() && entry_key(#[trigger] s[i]) == k].1@,
    )
}

proof fn lemma_entry_at(s: Seq<(String, Vec<Diagnostic>)>, i: int)
    requires
        unique_entries(s),
        0 <= i < s.len(),
    ensures
        entry_map(s).dom().contains(entry_key(s[i])),
        entry_map(s)[entry_key(s[i])] == s[i].1@,
{
    let k = entry_key(s[i]);
    let j = choose|j: int| 0 <= j < s.len() && entry_key(#[trigger] s[j]) == k;
    if j != i {
        if i < j {
            assert(entry_key(s[i]) != entry_key(s[j]));
        } else {
            assert(entry_key(s[j]) != entry_key(s[i]));
        }
    }
}

proof fn lemma_entry_update(s: Seq<(String, Vec<Diagnostic>)>, i: int, e: (String, Vec<Diagnostic>))
    requires
        unique_entries(s),
        0 <= i < s.len(),
        entry_key(s[i]) == entry_key(e),
    ensures
        unique_entries(s.update(i, e)),
        entry_map(s.update(i, e)) == entry_map(s).insert(entry_key(e), e.1@),
{
    let d = s.update(i, e);
    assert(unique_entries(d)) by {
        assert forall|a: int, c: int| 0 <= a < c < d.len() implies entry_key(#[trigger] d[a]) != entry_key(
            #[trigger] d[c],
        ) by {
            assert(entry_key(d[a]) == entry_key(s[a]));
            assert(entry_key(d[c]) == entry_key(s[c]));
        }
    }
    assert forall|k: Seq<char>| #[trigger]
        entry_map(d).dom().contains(k) == entry_map(s).insert(entry_key(e), e.1@).dom().contains(k) by {
        if entry_map(s).dom().contains(k) {
            let j = choose|j: int| 0 <= j < s.len() && entry_key(#[trigger] s[j]) == k;
            assert(entry_key(d[j]) == k);
        }
        if entry_map(d).dom().contains(k) {
            let j = choose|j: int| 0 <= j < d.len() && entry_key(#[trigger] d[j]) == k;
            assert(entry_key(s[j]) == k);
        }
    }
    assert forall|k: Seq<char>| #[trigger] entry_map(d).dom().contains(k) implies entry_map(d)[k]
        == entry_map(s).insert(entry_key(e), e.1@)[k] by {
        let j = choose|j: int| 0 <= j < d.len() && entry_key(#[trigger] d[j]) == k;
        lemma_entry_at(d, j);
        if j != i {
            assert(d[j] == s[j]);
            lemma_entry_at(s, j);
        }
    }
    assert(entry_map(d) =~= entry_map(s).insert(entry_key(e), e.1@));
}

proof fn lemma_entry_push(s: Seq<(String, Vec<Diagnostic>)>, e: (String, Vec<Diagnostic>))
    requires
        unique_entries(s),
        !entry_map(s).dom().contains(entry_key(e)),
    ensures
        unique_entries(s.push(e)),
        entry_map(s.push(e)) == entry_map(s).insert(entry_key(e), e.1@),
{
    let d = s.push(e);
    assert forall|k: int| 0 <= k < s.len() implies entry_key(#[trigger] s[k]) != entry_key(e) by {
        if entry_key(s[k]) == entry_key(e) {
            assert(entry_map(s).dom().contains(entry_key(e)));
        }
    }
    assert(unique_entries(d)) by {
        assert forall|a: int, c: int| 0 <= a < c < d.len() implies entry_key(#[trigger] d[a]) != entry_key(
            #[trigger] d[c],
        ) by {
            assert(d[a] == s[a]);
            if c < s.len() {
                assert(d[c] == s[c]);
            }
        }
    }
    assert forall|k: Seq<char>| #[trigger]
        entry_map(d).dom().contains(k) == entry_map(s).insert(entry_key(e), e.1@).dom().contains(k) by {
        if entry_map(s).dom().contains(k) {
            let j = choose|j: int| 0 <= j < s.len() && entry_key(#[trigger] s[j]) == k;
            assert(entry_key(d[j]) == k);
        }
        if k == entry_key(e) {
            assert(entry_key(d[s.len() as int]) == k);
        }
        if entry_map(d).dom().contains(k) {
            let j = choose|j: int| 0 <= j < d.len() && entry_key(#[trigger] d[j]) == k;
            if j < s.len() {
                assert(entry_key(s[j]) == k);
            }
        }
    }
    assert forall|k: Seq<char>| #[trigger] entry_map(d).dom().contains(k) implies entry_map(d)[k]
        == entry_map(s).insert(entry_key(e), e.1@)[k] by {
        let j = choose|j: int| 0 <= j < d.len() && entry_key(#[trigger] d[j]) == k;
        lemma_entry_at(d, j);
        if j < s.len() {
            assert(d[j] == s[j]);
            lemma_entry_at(s, j);
        }
    }
    assert(entry_map(d) =~= entry_map(s).insert(entry_key(e), e.1@));
}

proof fn lemma_entry_remove(s: Seq<(String, Vec<Diagnostic>)>, i: int)
    requires
        unique_entries(s),
        0 <= i < s.len(),
    ensures
        unique_entries(s.remove(i)),
        entry_map(s.remove(i)) == entry_map(s).remove(entry_key(s[i])),
{
    let d = s.remove(i);
    let k0 = entry_key(s[i]);
    assert(forall|j: int| 0 <= j < d.len() ==> #[trigger] d[j] == s[if j < i { j } else { j + 1 }]);
    assert(unique_entries(d)) by {
        assert forall|a: int, c: int| 0 <= a < c < d.len() implies entry_key(#[trigger] d[a]) != entry_key(
            #[trigger] d[c],
        ) by {
            let a2 = if a < i { a } else { a + 1 };
            let c2 = if c < i { c } else { c + 1 };
            assert(d[a] == s[a2]);
            assert(d[c] == s[c2]);
        }
    }
    assert forall|k: Seq<char>| #[trigger]
        entry_map(d).dom().contains(k) == entry_map(s).remove(k0).dom().contains(k) by {
        if entry_map(s).dom().contains(k) && k != k0 {
            let j = choose|j: int| 0 <= j < s.len() && entry_key(#[trigger] s[j]) == k;
            assert(j != i);
            let j2 = if j < i { j } else { j - 1 };
            assert(d[j2] == s[j]);
        }
        if entry_map(d).dom().contains(k) {
            let j = choose|j: int| 0 <= j < d.len() && entry_key(#[trigger] d[j]) == k;
            let j2 = if j < i { j } else { j + 1 };
            assert(d[j] == s[j2]);
            assert(entry_key(s[j2]) == k);
            if k == k0 {
                if j2 < i {
                    assert(entry_key(s[j2]) != entry_key(s[i]));
                } else {
                    assert(entry_key(s[i]) != entry_key(s[j2]));
                }
            }
        }
    }
    assert forall|k: Seq<char>| #[trigger] entry_map(d).dom().contains(k) implies entry_map(d)[k]
        == entry_map(s).remove(k0)[k] by {
        let j = choose|j: int| 0 <= j < d.len() && entry_key(#[trigger] d[j]) == k;
        let j2 = if j < i { j } else { j + 1 };
        assert(d[j] == s[j2]);
        lemma_entry_at(d, j);
        lemma_entry_at(s, j2);
    }
    assert(entry_map(d) =~= entry_map(s).remove(k0));
}

/// How many diagnostics have the given severity.
pub open spec fn count_severity(ds: Seq<Diagnostic>, severity: i32) -> nat
    decreases ds.len(),
{
    if ds.len() == 0 {
        0
    } else {
        count_severity(ds.drop_last(), severity) + if ds.last().severity == Some(severity) {
            1nat
        } else {
            0nat
        }
    }
}

/// The diagnostics last published for each document, kept in a `Vec` with
/// no document twice and viewed as a map (std's `HashMap` with `String`
/// keys has no specification Verus can prove lookups from).
#[derive(Debug)]
pub struct DiagnosticStore {
    store: Vec<(String, Vec<Diagnostic>)>,
}

impl View for DiagnosticStore {
    type V = Map<Seq<char>, Seq<Diagnostic>>;

    closed spec fn view(&self) -> Map<Seq<char>, Seq<Diagnostic>> {
        entry_map(self.store@)
    }
}

impl DiagnosticStore {
    /// No document occurs twice in the store.
    #[verifier::type_invariant]
    spec fn wf(self) -> bool {
        unique_entries(self.store@)
    }

    /// The diagnostics of a document; none if it has none.
    pub open spec fn spec_get(self, uri: Seq<char>) -> Seq<Diagnostic> {
        if self@.dom().contains(uri) {
            self@[uri]
        } else {
            Seq::empty()
        }
    }

    /// An empty store.
    pub fn new() -> (s: DiagnosticStore)
        ensures
            s@ == Map::<Seq<char>, Seq<Diagnostic>>::empty(),
    {
        let s = DiagnosticStore { store: Vec::new() };
        assert(s@ =~= Map::<Seq<char>, Seq<Diagnostic>>::empty());
        s
    }

    fn find(&self, uri: &str) -> (r: Option<usize>)
        ensures
            match r {
                Some(i) => i < self.store@.len() && entry_key(self.store@[i as int]) == uri@,
                None => !self@.dom().contains(uri@),
            },
    {
        proof {
            use_type_invariant(self);
        }
        let mut i: usize = 0;
        while i < self.store.len()
            invariant
                i <= self.store@.len(),
                forall|k: int| 0 <= k < i ==> entry_key(#[trigger] self.store@[k]) != uri@,
            decreases self.store@.len() - i,
        {
            if str_eq(self.store[i].0.as_str(), uri) {
                return Some(i);
            }
            i = i + 1;
        }
        None
    }

    /// Keep the diagnostics just published for a document, in place of
    /// those it had; returns the document's uri.
    pub fn publish(&mut self, uri: String, diagnostics: Vec<Diagnostic>) -> (r: String)
        ensures
            r@ == uri@,
            final(self)@ == old(self)@.insert(uri@, diagnostics@),
    {
        proof {
            use_type_invariant(&*self);
        }
        let ghost s = self.store@;
        let key = uri.clone();
        let found = self.find(uri.as_str());
        let entry = (uri, diagnostics);
        let mut store: Vec<(String, Vec<Diagnostic>)> = Vec::new();
        std::mem::swap(&mut store, &mut self.store);
        match found {
            Some(i) => {
                proof {
                    lemma_entry_update(s, i as int, entry);
                }
                store.set(i, entry);
            },
            None => {
                proof {
                    lemma_entry_push(s, entry);
                }
                store.push(entry);
            },
        }
        self.store = store;
        key
    }

    /// The diagnostics of a document; none if it has none.
    pub fn get(&self, uri: &str) -> (r: &[Diagnostic])
        ensures
            r@ == self.spec_get(uri@),
    {
        proof {
            use_type_invariant(self);
        }
        match self.find(uri) {
            Some(i) => {
                proof {
                    lemma_entry_at(self.store@, i as int);
                }
                self.store[i].1.as_slice()
            },
            None => &[],
        }
    }

    fn count(&self, uri: &str, severity: i32) -> (n: usize)
        ensures
            n == count_severity(self.spec_get(uri@), severity),
    {
        let ds = self.get(uri);
        let mut n: usize = 0;
        let mut i: usize = 0;
        assert(ds@.take(0) =~= Seq::<Diagnostic>::empty());
        while i < ds.len()
            invariant
                i <= ds@.len(),
                n == count_severity(ds@.take(i as int), severity),
                n <= i,
            decreases ds@.len() - i,
        {
            assert(ds@.take(i + 1).drop_last() =~= ds@.take(i as int));
            if ds[i].severity == Some(severity) {
                n = n + 1;
            }
            i = i + 1;
        }
        assert(ds@.take(i as int) =~= ds@);
        n
    }

    /// The number of errors published for a document.
    pub fn error_count(&self, uri: &str) -> (n: usize)
        ensures
            n == count_severity(self.spec_get(uri@), SEVERITY_ERROR),
    {
        self.count(uri, SEVERITY_ERROR)
    }

    /// The number of warnings published for a document.
    pub fn warning_count(&self, uri: &str) -> (n: usize)
        ensures
            n == count_severity(self.spec_get(uri@), SEVERITY_WARNING),
    {
        self.count(uri, SEVERITY_WARNING)
    }

    /// Forget a document's diagnostics.
    pub fn clear(&mut self, uri: &str)
        ensures
            final(self)@ == old(self)@.remove(uri@),
    {
        proof {
            use_type_invariant(&*self);
        }
        match self.find(uri) {
            Some(i) => {
                proof {
                    lemma_entry_remove(self.store@, i as int);
                }
                let mut store: Vec<(String, Vec<Diagnostic>)> = Vec::new();
                std::mem::swap(&mut store, &mut self.store);
                store.remove(i);
                self.store = store;
            },
            None => {
                assert(self@.remove(uri@) =~= self@);
            },
        }
    }

    /// The documents that have diagnostics, each once.
    pub fn uris(&self) -> (r: Vec<&str>)
        ensures
            forall|i: int| 0 <= i < r@.len() ==> self@.dom().contains((#[trigger] r@[i])@),
            forall|k: Seq<char>| #[trigger] self@.dom().contains(k) ==> exists|i: int| 0 <= i < r@.len() && r@[i]@ == k,
            forall|i: int, j: int| 0 <= i < j < r@.len() ==> (#[trigger] r@[i])@ != (#[trigger] r@[j])@,
    {
        proof {
            use_type_invariant(self);
        }
        let mut r: Vec<&str> = Vec::new();
        let mut i: usize = 0;
        while i < self.store.len()
            invariant
                unique_entries(self.store@),
                i <= self.store@.len(),
                r@.len() == i,
                forall|t: int| 0 <= t < i ==> (#[trigger] r@[t])@ == entry_key(self.store@[t]),
            decreases self.store@.len() - i,
        {
            r.push(self.store[i].0.as_str());
            i = i + 1;
        }
        proof {
            assert forall|t: int| 0 <= t < r@.len() implies self@.dom().contains((#[trigger] r@[t])@) by {
                lemma_entry_at(self.store@, t);
            }
            assert forall|k: Seq<char>| #[trigger] self@.dom().contains(k) implies exists|t: int| 0 <= t < r@.len() && r@[t]@ == k by {
                let j = choose|j: int| 0 <= j < self.store@.len() && entry_key(#[trigger] self.store@[j]) == k;
                assert(r@[j]@ == k);
            }
            assert forall|a: int, c: int| 0 <= a < c < r@.len() implies (#[trigger] r@[a])@ != (#[trigger] r@[c])@ by {
                assert(entry_key(self.store@[a]) != entry_key(self.store@[c]));
            }
        }
        r
    }
}

impl Default for DiagnosticStore {
    fn default() -> (s: DiagnosticStore)
        ensures
            s@ == Map::<Seq<char>, Seq<Diagnostic>>::empty(),
    {
        DiagnosticStore::new()
    }
}

/// What is published for a document is what a later lookup gives, until
/// the next publication for it or until it is cleared; other documents are
/// untouched.
pub proof fn law_publish_then_get(
    before: Map<Seq<char>, Seq<Diagnostic>>,
    uri: Seq<char>,
    diagnostics: Seq<Diagnostic>,
    other: Seq<char>,
)
    requires
        other != uri,
    ensures
        before.insert(uri, diagnostics)[uri] == diagnostics,
        before.insert(uri, diagnostics).dom().contains(other) == before.dom().contains(other),
        before.dom().contains(other) ==> before.insert(uri, diagnostics)[other] == before[other],
        !before.insert(uri, diagnostics).remove(uri).dom().contains(uri),
{
}

} // verus!
