//! Which language server to start for which language, and the diagnostics
//! the servers publish.

use vstd::prelude::*;

use crate::lsp::diagnostics::DiagnosticStore;
use crate::text::str_eq;

verus! {

/// Configuration for a language server: the language it serves and how to
/// start it.
#[derive(Debug, Clone)]
pub struct LspServerConfig {
    pub language_id: String,
    pub command: String,
    pub args: Vec<String>,
}

/// How a configuration starts its server: the command and its arguments.
pub open spec fn launch_of(c: LspServerConfig) -> (Seq<char>, Seq<Seq<char>>) {
    (c.command@, c.args@.map_values(|a: String| a@))
}

pub open spec fn config_key(c: LspServerConfig) -> Seq<char> {
    c.language_id@
}

/// No language is configured twice.
pub open spec fn unique_configs(s: Seq<LspServerConfig>) -> bool {
    forall|i: int, j: int|
        0 <= i < j < s.len() ==> config_key(#[trigger] s[i]) != config_key(#[trigger] s[j])
}

/// The launch of each configured language.
pub open spec fn config_map(s: Seq<LspServerConfig>) -> Map<Seq<char>, (Seq<char>, Seq<Seq<char>>)> {
    Map::new(
        |k: Seq<char>| exists|i: int| 0 <= i < s.len() && config_key(#[trigger] s[i]) == k,
        |k: Seq<char>| launch_of(s[choose|i: int| 0 <= i < s.len() && config_key(#[trigger] s[i]) == k]),
    )
}

proof fn lemma_config_at(s: Seq<LspServerConfig>, i: int)
    requires
        unique_configs(s),
        0 <= i < s.len(),
    ensures
        config_map(s).dom().contains(config_key(s[i])),
        config_map(s)[config_key(s[i])] == launch_of(s[i]),
{
    let k = config_key(s[i]);
    let j = choose|j: int| 0 <= j < s.len() && config_key(#[trigger] s[j]) == k;
    if j != i {
        if i < j {
            assert(config_key(s[i]) != config_key(s[j]));
        } else {
            assert(config_key(s[j]) != config_key(s[i]));
        }
    }
}

proof fn lemma_config_update(s: Seq<LspServerConfig>, i: int, e: LspServerConfig)
    requires
        unique_configs(s),
        0 <= i < s.len(),
        config_key(s[i]) == config_key(e),
    ensures
        unique_configs(s.update(i, e)),
        config_map(s.update(i, e)) == config_map(s).insert(config_key(e), launch_of(e)),
{
    let d = s.update(i, e);
    assert(unique_configs(d)) by {
        assert forall|a: int, c: int| 0 <= a < c < d.len() implies config_key(#[trigger] d[a])
            != config_key(#[trigger] d[c]) by {
            assert(config_key(d[a]) == config_key(s[a]));
            assert(config_key(d[c]) == config_key(s[c]));
        }
    }
    let m = config_map(s).insert(config_key(e), launch_of(e));
    assert forall|k: Seq<char>| #[trigger] config_map(d).dom().contains(k) == m.dom().contains(k) by {
        if config_map(s).dom().contains(k) {
            let j = choose|j: int| 0 <= j < s.len() && config_key(#[trigger] s[j]) == k;
            assert(config_key(d[j]) == k);
        }
        if config_map(d).dom().contains(k) {
            let j = choose|j: int| 0 <= j < d.len() && config_key(#[trigger] d[j]) == k;
            assert(config_key(s[j]) == k);
        }
    }
    assert forall|k: Seq<char>| #[trigger] config_map(d).dom().contains(k) implies config_map(d)[k]
        == m[k] by {
        let j = choose|j: int| 0 <= j < d.len() && config_key(#[trigger] d[j]) == k;
        lemma_config_at(d, j);
        if j != i {
            assert(d[j] == s[j]);
            lemma_config_at(s, j);
        }
    }
    assert(config_map(d) =~= m);
}

proof fn lemma_config_push(s: Seq<LspServerConfig>, e: LspServerConfig)
    requires
        unique_configs(s),
        !config_map(s).dom().contains(config_key(e)),
    ensures
        unique_configs(s.push(e)),
        config_map(s.push(e)) == config_map(s).insert(config_key(e), launch_of(e)),
{
    let d = s.push(e);
    assert forall|k: int| 0 <= k < s.len() implies config_key(#[trigger] s[k]) != config_key(e) by {
        if config_key(s[k]) == config_key(e) {
            assert(config_map(s).dom().contains(config_key(e)));
        }
    }
    assert(unique_configs(d)) by {
        assert forall|a: int, c: int| 0 <= a < c < d.len() implies config_key(#[trigger] d[a])
            != config_key(#[trigger] d[c]) by {
            assert(d[a] == s[a]);
            if c < s.len() {
                assert(d[c] == s[c]);
            }
        }
    }
    let m = config_map(s).insert(config_key(e), launch_of(e));
    assert forall|k: Seq<char>| #[trigger] config_map(d).dom().contains(k) == m.dom().contains(k) by {
        if config_map(s).dom().contains(k) {
            let j = choose|j: int| 0 <= j < s.len() && config_key(#[trigger] s[j]) == k;
            assert(config_key(d[j]) == k);
        }
        if k == config_key(e) {
            assert(config_key(d[s.len() as int]) == k);
        }
        if config_map(d).dom().contains(k) {
            let j = choose|j: int| 0 <= j < d.len() && config_key(#[trigger] d[j]) == k;
            if j < s.len() {
                assert(config_key(s[j]) == k);
            }
        }
    }
    assert forall|k: Seq<char>| #[trigger] config_map(d).dom().contains(k) implies config_map(d)[k]
        == m[k] by {
        let j = choose|j: int| 0 <= j < d.len() && config_key(#[trigger] d[j]) == k;
        lemma_config_at(d, j);
        if j < s.len() {
            assert(d[j] == s[j]);
            lemma_config_at(s, j);
        }
    }
    assert(config_map(d) =~= m);
}

/// The server configurations, one per language, and the diagnostics the
/// servers have published. The running servers themselves are kept by the
/// application. The configurations are kept in a `Vec` with no language
/// twice and viewed as a map (std's `HashMap` with `String` keys has no
/// specification Verus can prove lookups from).
#[derive(Debug)]
pub struct LspManager {
    configs: Vec<LspServerConfig>,
    pub diagnostics: DiagnosticStore,
}

impl View for LspManager {
    type V = Map<Seq<char>, (Seq<char>, Seq<Seq<char>>)>;

    /// How the server of each configured language is started.
    closed spec fn view(&self) -> Map<Seq<char>, (Seq<char>, Seq<Seq<char>>)> {
        config_map(self.configs@)
    }
}

impl LspManager {
    pub closed spec fn wf(self) -> bool {
        unique_configs(self.configs@)
    }

    /// The diagnostics store.
    pub closed spec fn store(self) -> DiagnosticStore {
        self.diagnostics
    }

    /// A manager knowing one server: `kotlin-language-server`, without
    /// arguments, for Kotlin; no diagnostics yet.
    pub fn new() -> (m: LspManager)
        ensures
            m.wf(),
            m.store()@ == Map::<Seq<char>, Seq<crate::lsp::diagnostics::Diagnostic>>::empty(),
            m@ == map!["kotlin"@ => ("kotlin-language-server"@, Seq::<Seq<char>>::empty())],
    {
        let mut manager = LspManager { configs: Vec::new(), diagnostics: DiagnosticStore::new() };
        assert(manager@ =~= Map::<Seq<char>, (Seq<char>, Seq<Seq<char>>)>::empty());
        let kotlin = LspServerConfig {
            language_id: String::from_str("kotlin"),
            command: String::from_str("kotlin-language-server"),
            args: Vec::new(),
        };
        assert(launch_of(kotlin).1 =~= Seq::<Seq<char>>::empty());
        manager.register(kotlin);
        assert(manager@ =~= map!["kotlin"@ => ("kotlin-language-server"@, Seq::<Seq<char>>::empty())]);
        manager
    }

    fn find(&self, language_id: &str) -> (r: Option<usize>)
        requires
            self.wf(),
        ensures
            match r {
                Some(i) => i < self.configs@.len() && config_key(self.configs@[i as int])
                    == language_id@,
                None => !self@.dom().contains(language_id@),
            },
    {
        let mut i: usize = 0;
        while i < self.configs.len()
            invariant
                i <= self.configs@.len(),
                forall|k: int| 0 <= k < i ==> config_key(#[trigger] self.configs@[k]) != language_id@,
            decreases self.configs@.len() - i,
        {
            if str_eq(self.configs[i].language_id.as_str(), language_id) {
                return Some(i);
            }
            i = i + 1;
        }
        None
    }

    /// Register the server configuration of a language, in place of the one
    /// it had.
    pub fn register(&mut self, config: LspServerConfig)
        requires
            old(self).wf(),
        ensures
            final(self).wf(),
            final(self)@ == old(self)@.insert(config.language_id@, launch_of(config)),
            final(self).store() == old(self).store(),
    {
        let ghost s = self.configs@;
        let found = self.find(config.language_id.as_str());
        match found {
            Some(i) => {
                proof {
                    lemma_config_update(s, i as int, config);
                }
                self.configs.set(i, config);
            },
            None => {
                proof {
                    lemma_config_push(s, config);
                }
                self.configs.push(config);
            },
        }
    }

    /// Whether a language has a configured server.
    pub fn has_config(&self, language_id: &str) -> (r: bool)
        requires
            self.wf(),
        ensures
            r == self@.dom().contains(language_id@),
    {
        self.find(language_id).is_some()
    }

    /// The server configuration of a language, if it has one.
    pub fn config(&self, language_id: &str) -> (r: Option<&LspServerConfig>)
        requires
            self.wf(),
        ensures
            match r {
                Some(c) => self@.dom().contains(language_id@) && c.language_id@ == language_id@
                    && self@[language_id@] == launch_of(*c),
                None => !self@.dom().contains(language_id@),
            },
    {
        match self.find(language_id) {
            Some(i) => {
                proof {
                    lemma_config_at(self.configs@, i as int);
                }
                Some(&self.configs[i])
            },
            None => None,
        }
    }
}

impl Default for LspManager {
    fn default() -> (m: LspManager)
        ensures
            m.wf(),
            m@ == map!["kotlin"@ => ("kotlin-language-server"@, Seq::<Seq<char>>::empty())],
    {
        LspManager::new()
    }
}

} // verus!
