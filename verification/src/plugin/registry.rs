use vstd::prelude::*;

use crate::plugin::abi::{Decoration, PluginEvent, PluginInfo, PluginResponse};
use crate::plugin::manifest::{LimitsConfig, PluginManifest};
use crate::text::{str_eq, strs};

verus! {

/// A plugin is disabled after this many failed events in a row.
pub const MAX_CONSECUTIVE_FAILURES: u32 = 5;

/// Fuel granted per millisecond of a plugin's time limit.
pub const FUEL_PER_MS: u64 = 10_000;

/// The fuel a plugin gets for each event: its time limit in fuel units.
pub fn fuel_limit(limits: &LimitsConfig) -> (f: u64)
    requires
        limits.timeout_ms * FUEL_PER_MS <= u64::MAX,
    ensures
        f == limits.timeout_ms * FUEL_PER_MS,
{
    limits.timeout_ms * FUEL_PER_MS
}

/// The memory a plugin may use, in bytes.
pub fn memory_bytes(limits: &LimitsConfig) -> (b: usize)
    requires
        limits.max_memory_mb * 1024 * 1024 <= usize::MAX,
    ensures
        b == limits.max_memory_mb * 1024 * 1024,
{
    (limits.max_memory_mb as usize) * 1024 * 1024
}

/// The host's record of a loaded plugin: its manifest, whether it is
/// enabled, and how many events in a row it has failed.
#[derive(Debug, Clone)]
pub struct PluginStatus {
    pub manifest: PluginManifest,
    pub enabled: bool,
    pub consecutive_failures: u32,
}

impl PluginStatus {
    /// Failed events since the last success.
    pub open spec fn failures(self) -> u32 {
        self.consecutive_failures
    }

    /// A freshly loaded plugin: enabled, with no failures.
    pub fn new(manifest: PluginManifest) -> (s: PluginStatus)
        ensures
            s.manifest == manifest,
            s.enabled,
            s.failures() == 0,
    {
        PluginStatus { manifest, enabled: true, consecutive_failures: 0 }
    }

    pub fn name(&self) -> (r: &str)
        ensures
            r@ == self.manifest.plugin.name@,
    {
        self.manifest.plugin.name.as_str()
    }

    /// The plugin takes the event: it is enabled and subscribed to the
    /// event's type.
    pub open spec fn spec_wants(self, event: PluginEvent) -> bool {
        self.enabled && strs(self.manifest.events.subscribe@).contains(event.event_type@)
    }

    pub fn wants(&self, event: &PluginEvent) -> (r: bool)
        ensures
            r == self.spec_wants(*event),
    {
        self.enabled && self.manifest.subscribes_to(event.event_type.as_str())
    }

    /// The status after an event was handled (`ok`) or failed.
    pub open spec fn after_outcome(self, ok: bool) -> PluginStatus {
        if ok {
            PluginStatus { consecutive_failures: 0, ..self }
        } else {
            let n = (self.failures() + 1) as u32;
            PluginStatus {
                enabled: self.enabled && n < MAX_CONSECUTIVE_FAILURES,
                consecutive_failures: n,
                ..self
            }
        }
    }

    /// Record how an event went: a success clears the failure count; a
    /// failure adds to it, and the plugin is disabled once the count
    /// reaches `MAX_CONSECUTIVE_FAILURES`.
    pub fn record_outcome(&mut self, ok: bool)
        requires
            ok || old(self).failures() < u32::MAX,
        ensures
            *final(self) == old(self).after_outcome(ok),
    {
        if ok {
            self.consecutive_failures = 0;
        } else {
            self.consecutive_failures = self.consecutive_failures + 1;
            if self.consecutive_failures >= MAX_CONSECUTIVE_FAILURES {
                self.enabled = false;
            }
        }
    }
}

/// A decorations list of the cache: the uri it belongs to and the list.
pub open spec fn key_of(e: (String, Vec<Decoration>)) -> Seq<char> {
    e.0@
}

/// No uri occurs twice in the cache.
pub open spec fn unique_keys(c: Seq<(String, Vec<Decoration>)>) -> bool {
    forall|i: int, j: int| 0 <= i < j < c.len() ==> key_of(#[trigger] c[i]) != key_of(#[trigger] c[j])
}

/// The cached decorations of a uri; none if it has none.
pub open spec fn cached(c: Seq<(String, Vec<Decoration>)>, uri: Seq<char>) -> Seq<Decoration> {
    if exists|i: int| 0 <= i < c.len() && key_of(#[trigger] c[i]) == uri {
        c[choose|i: int| 0 <= i < c.len() && key_of(#[trigger] c[i]) == uri].1@
    } else {
        Seq::empty()
    }
}

/// The first plugin with the given name.
pub open spec fn first_named(ps: Seq<PluginStatus>, name: Seq<char>) -> Option<int> {
    if exists|i: int| 0 <= i < ps.len() && (#[trigger] ps[i]).manifest.plugin.name@ == name {
        Some(
            choose|i: int|
                0 <= i < ps.len() && (#[trigger] ps[i]).manifest.plugin.name@ == name && forall|k: int|
                    0 <= k < i ==> ps[k].manifest.plugin.name@ != name,
        )
    } else {
        None
    }
}

proof fn lemma_first_exists(ps: Seq<PluginStatus>, name: Seq<char>, w: int)
    requires
        0 <= w < ps.len(),
        ps[w].manifest.plugin.name@ == name,
    ensures
        exists|i: int|
            0 <= i < ps.len() && (#[trigger] ps[i]).manifest.plugin.name@ == name && forall|k: int|
                0 <= k < i ==> ps[k].manifest.plugin.name@ != name,
    decreases w,
{
    if exists|k: int| 0 <= k < w && (#[trigger] ps[k]).manifest.plugin.name@ == name {
        let k = choose|k: int| 0 <= k < w && (#[trigger] ps[k]).manifest.plugin.name@ == name;
        lemma_first_exists(ps, name, k);
    } else {
        assert(forall|k: int| 0 <= k < w ==> ps[k].manifest.plugin.name@ != name);
    }
}

/// `enable_plugin` and `disable_plugin` act on the first plugin of the
/// given name: `first_named` is the first index holding a plugin of that
/// name, or none if no plugin has it.
pub proof fn lemma_first_named(ps: Seq<PluginStatus>, name: Seq<char>)
    ensures
        match first_named(ps, name) {
            Some(i) => {
                &&& 0 <= i < ps.len()
                &&& ps[i].manifest.plugin.name@ == name
                &&& forall|k: int| 0 <= k < i ==> ps[k].manifest.plugin.name@ != name
            },
            None => forall|k: int| 0 <= k < ps.len() ==> ps[k].manifest.plugin.name@ != name,
        },
{
    if exists|i: int| 0 <= i < ps.len() && (#[trigger] ps[i]).manifest.plugin.name@ == name {
        let w = choose|i: int| 0 <= i < ps.len() && (#[trigger] ps[i]).manifest.plugin.name@ == name;
        lemma_first_exists(ps, name, w);
    }
}

/// The information listed for a plugin.
pub open spec fn info_of(info: PluginInfo, p: PluginStatus) -> bool {
    &&& info.name@ == p.manifest.plugin.name@
    &&& info.version@ == p.manifest.plugin.version@
    &&& match info.description {
        None => p.manifest.plugin.description@.len() == 0,
        Some(d) => p.manifest.plugin.description@.len() > 0 && d@ == p.manifest.plugin.description@,
    }
}

proof fn lemma_cached_at(c: Seq<(String, Vec<Decoration>)>, i: int)
    requires
        unique_keys(c),
        0 <= i < c.len(),
    ensures
        cached(c, key_of(c[i])) == c[i].1@,
{
    let u = key_of(c[i]);
    let j = choose|j: int| 0 <= j < c.len() && key_of(#[trigger] c[j]) == u;
    if j != i {
        if i < j {
            assert(key_of(c[i]) != key_of(c[j]));
        } else {
            assert(key_of(c[j]) != key_of(c[i]));
        }
    }
}

proof fn lemma_cache_set(c: Seq<(String, Vec<Decoration>)>, i: int, e: (String, Vec<Decoration>))
    requires
        unique_keys(c),
        0 <= i < c.len(),
        key_of(c[i]) == key_of(e),
    ensures
        unique_keys(c.update(i, e)),
        forall|u: Seq<char>|
            #[trigger] cached(c.update(i, e), u) == if u == key_of(e) {
                e.1@
            } else {
                cached(c, u)
            },
{
    let d = c.update(i, e);
    assert(unique_keys(d)) by {
        assert forall|a: int, b: int| 0 <= a < b < d.len() implies key_of(#[trigger] d[a]) != key_of(
            #[trigger] d[b],
        ) by {
            assert(key_of(d[a]) == key_of(c[a]));
            assert(key_of(d[b]) == key_of(c[b]));
        }
    }
    assert forall|u: Seq<char>|
        #[trigger] cached(d, u) == if u == key_of(e) {
            e.1@
        } else {
            cached(c, u)
        } by {
        if u == key_of(e) {
            lemma_cached_at(d, i);
        } else {
            if exists|k: int| 0 <= k < c.len() && key_of(#[trigger] c[k]) == u {
                let k = choose|k: int| 0 <= k < c.len() && key_of(#[trigger] c[k]) == u;
                lemma_cached_at(c, k);
                assert(key_of(d[k]) == u);
                lemma_cached_at(d, k);
            } else {
                assert forall|k: int| 0 <= k < d.len() implies key_of(#[trigger] d[k]) != u by {
                    assert(key_of(d[k]) == key_of(c[k]));
                }
            }
        }
    }
}

proof fn lemma_cache_push(c: Seq<(String, Vec<Decoration>)>, e: (String, Vec<Decoration>))
    requires
        unique_keys(c),
        forall|k: int| 0 <= k < c.len() ==> key_of(#[trigger] c[k]) != key_of(e),
    ensures
        unique_keys(c.push(e)),
        forall|u: Seq<char>|
            #[trigger] cached(c.push(e), u) == if u == key_of(e) {
                e.1@
            } else {
                cached(c, u)
            },
{
    let d = c.push(e);
    assert(unique_keys(d)) by {
        assert forall|a: int, b: int| 0 <= a < b < d.len() implies key_of(#[trigger] d[a]) != key_of(
            #[trigger] d[b],
        ) by {
            if b == c.len() {
                assert(key_of(d[a]) == key_of(c[a]));
            } else {
                assert(key_of(d[a]) == key_of(c[a]));
                assert(key_of(d[b]) == key_of(c[b]));
            }
        }
    }
    assert forall|u: Seq<char>|
        #[trigger] cached(d, u) == if u == key_of(e) {
            e.1@
        } else {
            cached(c, u)
        } by {
        if u == key_of(e) {
            lemma_cached_at(d, c.len() as int);
        } else {
            if exists|k: int| 0 <= k < c.len() && key_of(#[trigger] c[k]) == u {
                let k = choose|k: int| 0 <= k < c.len() && key_of(#[trigger] c[k]) == u;
                lemma_cached_at(c, k);
                assert(key_of(d[k]) == u);
                lemma_cached_at(d, k);
            } else {
                assert forall|k: int| 0 <= k < d.len() implies key_of(#[trigger] d[k]) != u by {
                    if k < c.len() {
                        assert(key_of(d[k]) == key_of(c[k]));
                    }
                }
            }
        }
    }
}

/// The host's side of all loaded plugins: their status and the decorations
/// last produced for each uri.
pub struct PluginManager {
    plugins: Vec<PluginStatus>,
    decorations: Vec<(String, Vec<Decoration>)>,
}

impl PluginManager {
    pub closed spec fn plugins(self) -> Seq<PluginStatus> {
        self.plugins@
    }

    pub closed spec fn cache(self) -> Seq<(String, Vec<Decoration>)> {
        self.decorations@
    }

    /// No uri has decorations cached twice.
    #[verifier::type_invariant]
    spec fn wf(self) -> bool {
        unique_keys(self.decorations@)
    }

    /// A manager with no plugin and no decoration.
    pub fn new() -> (m: PluginManager)
        ensures
            m.plugins().len() == 0,
            m.cache().len() == 0,
    {
        PluginManager { plugins: Vec::new(), decorations: Vec::new() }
    }

    /// Add a loaded plugin.
    pub fn add_plugin(&mut self, status: PluginStatus)
        ensures
            final(self).plugins() == old(self).plugins().push(status),
            final(self).cache() == old(self).cache(),
    {
        proof {
            use_type_invariant(&*self);
        }
        let mut plugins: Vec<PluginStatus> = Vec::new();
        std::mem::swap(&mut plugins, &mut self.plugins);
        plugins.push(status);
        self.plugins = plugins;
    }

    /// The number of loaded plugins.
    pub fn plugin_count(&self) -> (n: usize)
        ensures
            n == self.plugins().len(),
    {
        self.plugins.len()
    }

    /// The status of the `i`-th plugin.
    pub fn plugin(&self, i: usize) -> (p: &PluginStatus)
        requires
            i < self.plugins().len(),
        ensures
            *p == self.plugins()[i as int],
    {
        &self.plugins[i]
    }

    /// Whether the `i`-th plugin takes the event.
    pub fn wants_event(&self, i: usize, event: &PluginEvent) -> (r: bool)
        requires
            i < self.plugins().len(),
        ensures
            r == self.plugins()[i as int].spec_wants(*event),
    {
        self.plugins[i].wants(event)
    }

    /// Record how the `i`-th plugin handled an event.
    pub fn record_outcome(&mut self, i: usize, ok: bool)
        requires
            i < old(self).plugins().len(),
            ok || old(self).plugins()[i as int].failures() < u32::MAX,
        ensures
            final(self).cache() == old(self).cache(),
            final(self).plugins().len() == old(self).plugins().len(),
            forall|k: int|
                0 <= k < old(self).plugins().len() && k != i ==> final(self).plugins()[k]
                    == old(self).plugins()[k],
            final(self).plugins()[i as int] == old(self).plugins()[i as int].after_outcome(ok),
    {
        proof {
            use_type_invariant(&*self);
        }
        let mut plugins: Vec<PluginStatus> = Vec::new();
        std::mem::swap(&mut plugins, &mut self.plugins);
        plugins[i].record_outcome(ok);
        self.plugins = plugins;
    }

    /// Finish the handling of an event by plugin `i`, given what its handler
    /// gave back (`None`: the call failed): the outcome is recorded, and the
    /// response, if any, is handed on.
    pub fn finish_event(&mut self, i: usize, outcome: Option<PluginResponse>) -> (r: Option<
        PluginResponse,
    >)
        requires
            i < old(self).plugins().len(),
            outcome is Some || old(self).plugins()[i as int].failures() < u32::MAX,
        ensures
            r == outcome,
            final(self).cache() == old(self).cache(),
            final(self).plugins().len() == old(self).plugins().len(),
            forall|k: int|
                0 <= k < old(self).plugins().len() && k != i ==> final(self).plugins()[k]
                    == old(self).plugins()[k],
            final(self).plugins()[i as int] == old(self).plugins()[i as int].after_outcome(
                outcome is Some,
            ),
    {
        self.record_outcome(i, outcome.is_some());
        outcome
    }

    /// The loaded plugins' names, versions and descriptions (an empty
    /// description is listed as none).
    pub fn list_plugins(&self) -> (r: Vec<PluginInfo>)
        ensures
            r@.len() == self.plugins().len(),
            forall|i: int| 0 <= i < r@.len() ==> info_of(#[trigger] r@[i], self.plugins()[i]),
    {
        let mut r: Vec<PluginInfo> = Vec::new();
        let mut i: usize = 0;
        while i < self.plugins.len()
            invariant
                i <= self.plugins@.len(),
                r@.len() == i,
                forall|k: int| 0 <= k < i ==> info_of(#[trigger] r@[k], self.plugins@[k]),
            decreases self.plugins@.len() - i,
        {
            let meta = &self.plugins[i].manifest.plugin;
            let description = if meta.description.as_str().is_empty() {
                None
            } else {
                Some(meta.description.clone())
            };
            r.push(PluginInfo { name: meta.name.clone(), version: meta.version.clone(), description });
            i = i + 1;
        }
        r
    }

    fn find_named(&self, name: &str) -> (r: Option<usize>)
        ensures
            match r {
                Some(i) => i < self.plugins().len() && first_named(self.plugins(), name@) == Some(i as int),
                None => first_named(self.plugins(), name@) is None,
            },
    {
        let mut i: usize = 0;
        while i < self.plugins.len()
            invariant
                i <= self.plugins@.len(),
                forall|k: int| 0 <= k < i ==> self.plugins@[k].manifest.plugin.name@ != name@,
            decreases self.plugins@.len() - i,
        {
            if str_eq(self.plugins[i].name(), name) {
                let ghost ps = self.plugins@;
                proof {
                    let j = choose|j: int|
                        0 <= j < ps.len() && (#[trigger] ps[j]).manifest.plugin.name@ == name@
                            && forall|k: int| 0 <= k < j ==> ps[k].manifest.plugin.name@ != name@;
                    assert(j == i) by {
                        if j < i {
                        } else if j > i {
                            assert(ps[i as int].manifest.plugin.name@ == name@);
                        }
                    }
                }
                return Some(i);
            }
            i = i + 1;
        }
        None
    }

    /// Set the `enabled` flag of the first plugin with the given name;
    /// `false` if no plugin has that name.
    fn set_enabled(&mut self, name: &str, enabled: bool) -> (r: bool)
        ensures
            final(self).cache() == old(self).cache(),
            r == (first_named(old(self).plugins(), name@) is Some),
            final(self).plugins().len() == old(self).plugins().len(),
            forall|k: int|
                0 <= k < old(self).plugins().len() && Some(k) != first_named(old(self).plugins(), name@)
                    ==> final(self).plugins()[k] == old(self).plugins()[k],
            match first_named(old(self).plugins(), name@) {
                Some(i) => final(self).plugins()[i] == (PluginStatus { enabled, ..old(self).plugins()[i] }),
                None => true,
            },
    {
        match self.find_named(name) {
            Some(i) => {
                proof {
                    use_type_invariant(&*self);
                }
                let mut plugins: Vec<PluginStatus> = Vec::new();
                std::mem::swap(&mut plugins, &mut self.plugins);
                plugins[i].enabled = enabled;
                self.plugins = plugins;
                true
            },
            None => false,
        }
    }

    /// Enable the first plugin with the given name; `false` if there is none.
    pub fn enable_plugin(&mut self, name: &str) -> (r: bool)
        ensures
            final(self).cache() == old(self).cache(),
            r == (first_named(old(self).plugins(), name@) is Some),
            final(self).plugins().len() == old(self).plugins().len(),
            forall|k: int|
                0 <= k < old(self).plugins().len() && Some(k) != first_named(old(self).plugins(), name@)
                    ==> final(self).plugins()[k] == old(self).plugins()[k],
            match first_named(old(self).plugins(), name@) {
                Some(i) => final(self).plugins()[i] == (PluginStatus { enabled: true, ..old(self).plugins()[i] }),
                None => true,
            },
    {
        self.set_enabled(name, true)
    }

    /// Disable the first plugin with the given name; `false` if there is
    /// none.
    pub fn disable_plugin(&mut self, name: &str) -> (r: bool)
        ensures
            final(self).cache() == old(self).cache(),
            r == (first_named(old(self).plugins(), name@) is Some),
            final(self).plugins().len() == old(self).plugins().len(),
            forall|k: int|
                0 <= k < old(self).plugins().len() && Some(k) != first_named(old(self).plugins(), name@)
                    ==> final(self).plugins()[k] == old(self).plugins()[k],
            match first_named(old(self).plugins(), name@) {
                Some(i) => final(self).plugins()[i] == (PluginStatus { enabled: false, ..old(self).plugins()[i] }),
                None => true,
            },
    {
        self.set_enabled(name, false)
    }

    fn find_uri(&self, uri: &str) -> (r: Option<usize>)
        ensures
            match r {
                Some(i) => i < self.cache().len() && key_of(self.cache()[i as int]) == uri@,
                None => forall|k: int| 0 <= k < self.cache().len() ==> key_of(#[trigger] self.cache()[k]) != uri@,
            },
    {
        let mut i: usize = 0;
        while i < self.decorations.len()
            invariant
                i <= self.decorations@.len(),
                forall|k: int| 0 <= k < i ==> key_of(#[trigger] self.decorations@[k]) != uri@,
            decreases self.decorations@.len() - i,
        {
            if str_eq(self.decorations[i].0.as_str(), uri) {
                return Some(i);
            }
            i = i + 1;
        }
        None
    }

    /// The decorations last cached for a uri; none if it has none.
    pub fn get_decorations(&self, uri: &str) -> (r: &[Decoration])
        ensures
            r@ == cached(self.cache(), uri@),
    {
        proof {
            use_type_invariant(self);
        }
        match self.find_uri(uri) {
            Some(i) => {
                proof {
                    lemma_cached_at(self.cache(), i as int);
                }
                self.decorations[i].1.as_slice()
            },
            None => &[],
        }
    }

    /// Keep the decorations a dispatched event produced, under the event's
    /// uri. Nothing is kept for an event without a uri, nor when there are
    /// no decorations.
    pub fn cache_decorations(&mut self, uri: &Option<String>, decorations: Vec<Decoration>)
        ensures
            final(self).plugins() == old(self).plugins(),
            forall|u: Seq<char>|
                #[trigger] cached(final(self).cache(), u) == match uri {
                    Some(s) if s@ == u && decorations@.len() > 0 => decorations@,
                    _ => cached(old(self).cache(), u),
                },
    {
        match uri {
            Some(s) => {
                if decorations.len() > 0 {
                    proof {
                        use_type_invariant(&*self);
                    }
                    let ghost old_cache = self.decorations@;
                    let entry = (s.clone(), decorations);
                    let found = self.find_uri(s.as_str());
                    proof {
                        if found is None {
                            assert forall|k: int| 0 <= k < old_cache.len() implies key_of(
                                #[trigger] old_cache[k],
                            ) != key_of(entry) by {
                                assert(old_cache[k] == self.cache()[k]);
                            }
                        }
                    }
                    let mut cache: Vec<(String, Vec<Decoration>)> = Vec::new();
                    std::mem::swap(&mut cache, &mut self.decorations);
                    match found {
                        Some(i) => {
                            proof {
                                lemma_cache_set(old_cache, i as int, entry);
                            }
                            cache.set(i, entry);
                        },
                        None => {
                            proof {
                                lemma_cache_push(old_cache, entry);
                            }
                            cache.push(entry);
                        },
                    }
                    self.decorations = cache;
                }
            },
            None => {},
        }
    }
}

impl Default for PluginManager {
    fn default() -> (m: PluginManager)
        ensures
            m.plugins().len() == 0,
            m.cache().len() == 0,
    {
        PluginManager::new()
    }
}

/// A plugin that has just loaded or handled an event stays enabled through
/// four failed events in a row and is disabled by the fifth.
pub proof fn law_fifth_failure_disables(p: PluginStatus)
    requires
        p.enabled,
        p.failures() == 0,
    ensures
        ({
            let p4 = p.after_outcome(false).after_outcome(false).after_outcome(false).after_outcome(
                false,
            );
            &&& p4.enabled
            &&& !p4.after_outcome(false).enabled
        }),
{
}

/// A handled event clears the failure count and leaves the enabled flag and
/// manifest as they were.
pub proof fn law_success_resets(p: PluginStatus)
    ensures
        p.after_outcome(true).failures() == 0,
        p.after_outcome(true).enabled == p.enabled,
        p.after_outcome(true).manifest == p.manifest,
{
}

/// A disabled plugin takes no event, and failures never enable a plugin.
pub proof fn law_disabled_stays_quiet(p: PluginStatus, event: PluginEvent)
    requires
        !p.enabled,
    ensures
        !p.spec_wants(event),
        !p.after_outcome(false).enabled,
{
}

/// Decorations cached for a uri are what a later lookup of that uri gives,
/// and caching for one uri leaves every other uri's decorations as they
/// were.
pub proof fn law_cache_read_after_write(
    before: Seq<(String, Vec<Decoration>)>,
    after: Seq<(String, Vec<Decoration>)>,
    uri: String,
    decorations: Seq<Decoration>,
    other: Seq<char>,
)
    requires
        decorations.len() > 0,
        forall|u: Seq<char>|
            #[trigger] cached(after, u) == if u == uri@ {
                decorations
            } else {
                cached(before, u)
            },
        other != uri@,
    ensures
        cached(after, uri@) == decorations,
        cached(after, other) == cached(before, other),
{
}

/// The status after a run of events, each handled (`true`) or failed.
pub open spec fn after_outcomes(p: PluginStatus, outs: Seq<bool>) -> PluginStatus
    decreases outs.len(),
{
    if outs.len() == 0 {
        p
    } else {
        after_outcomes(p, outs.drop_last()).after_outcome(outs.last())
    }
}

/// The failure count after a run of events, starting from `f`: a success
/// clears it, a failure adds one.
pub open spec fn failures_after(f: nat, outs: Seq<bool>) -> nat
    decreases outs.len(),
{
    if outs.len() == 0 {
        f
    } else if outs.last() {
        0
    } else {
        failures_after(f, outs.drop_last()) + 1
    }
}

/// Starting from `f` failures, at some event of the run the count of
/// failures in a row reached five.
pub open spec fn five_failed_in_a_row(f: nat, outs: Seq<bool>) -> bool {
    exists|i: int| 1 <= i <= outs.len() && failures_after(f, #[trigger] outs.take(i)) >= 5
}

/// Over any run of events, an enabled plugin counts the failures since its
/// last success (on top of those it had), and stays enabled exactly as long
/// as that count never reaches five at an event.
#[verifier::rlimit(30)]
pub proof fn law_outcome_runs(p: PluginStatus, outs: Seq<bool>)
    requires
        p.enabled,
        p.failures() + outs.len() < u32::MAX,
    ensures
        after_outcomes(p, outs).failures() == failures_after(p.failures() as nat, outs),
        after_outcomes(p, outs).enabled == !five_failed_in_a_row(p.failures() as nat, outs),
        after_outcomes(p, outs).manifest == p.manifest,
    decreases outs.len(),
{
    let f = p.failures() as nat;
    if outs.len() > 0 {
        let s = outs.drop_last();
        law_outcome_runs(p, s);
        lemma_failures_bound(f, s);
        assert(outs.take(outs.len() as int) =~= outs);
        assert forall|i: int| 0 <= i <= s.len() implies #[trigger] outs.take(i) == s.take(i) by {
            assert(outs.take(i) =~= s.take(i));
        }
        if five_failed_in_a_row(f, s) {
            let i = choose|i: int| 1 <= i <= s.len() && failures_after(f, #[trigger] s.take(i)) >= 5;
            assert(outs.take(i) == s.take(i));
        }
        if five_failed_in_a_row(f, outs) && failures_after(f, outs) < 5 {
            let i = choose|i: int|
                1 <= i <= outs.len() && failures_after(f, #[trigger] outs.take(i)) >= 5;
            if i <= s.len() {
                assert(outs.take(i) == s.take(i));
            }
        }
    }
}

proof fn lemma_failures_bound(f: nat, outs: Seq<bool>)
    ensures
        failures_after(f, outs) <= f + outs.len(),
    decreases outs.len(),
{
    if outs.len() > 0 {
        lemma_failures_bound(f, outs.drop_last());
    }
}

/// What handing an event to a plugin does, given what the plugin's handler
/// gives back if it is called (`None`: the call fails): a plugin that does
/// not take the event is not called and stays as it is, and nothing comes
/// back; otherwise the outcome is recorded and the response handed on. The
/// third part says whether the handler was called.
pub open spec fn event_step(p: PluginStatus, event: PluginEvent, out: Option<PluginResponse>) -> (
    PluginStatus,
    Option<PluginResponse>,
    bool,
) {
    if p.spec_wants(event) {
        (p.after_outcome(out is Some), out, true)
    } else {
        (p, None, false)
    }
}

/// The status after a run of events, each with what the handler would give
/// back for it.
pub open spec fn after_events(
    p: PluginStatus,
    events: Seq<PluginEvent>,
    outs: Seq<Option<PluginResponse>>,
) -> PluginStatus
    decreases events.len(),
{
    if events.len() == 0 || outs.len() != events.len() {
        p
    } else {
        event_step(
            after_events(p, events.drop_last(), outs.drop_last()),
            events.last(),
            outs.last(),
        ).0
    }
}

/// Which calls of a run succeeded.
pub open spec fn successes(outs: Seq<Option<PluginResponse>>) -> Seq<bool> {
    outs.map_values(|o: Option<PluginResponse>| o is Some)
}

/// Handling one event: a plugin that is disabled or not subscribed to the
/// event's type is not called, stays as it is and gives nothing back; a
/// plugin that takes it gives back what its handler did, and records the
/// outcome.
pub proof fn law_handle_event(p: PluginStatus, event: PluginEvent, out: Option<PluginResponse>)
    ensures
        !p.spec_wants(event) ==> event_step(p, event, out) == (p, None::<PluginResponse>, false),
        p.spec_wants(event) ==> event_step(p, event, out) == (
            p.after_outcome(out is Some),
            out,
            true,
        ),
        p.spec_wants(event) <==> (p.enabled && strs(p.manifest.events.subscribe@).contains(
            event.event_type@,
        )),
{
}

/// Over a run of events the plugin is subscribed to, an enabled plugin
/// stays enabled exactly as long as its count of failures in a row (on top
/// of those it had) never reaches five; once disabled it is not called
/// again.
pub proof fn law_event_runs(p: PluginStatus, events: Seq<PluginEvent>, outs: Seq<Option<PluginResponse>>)
    requires
        p.enabled,
        outs.len() == events.len(),
        p.failures() + events.len() < u32::MAX,
        forall|i: int|
            0 <= i < events.len() ==> strs(p.manifest.events.subscribe@).contains(
                (#[trigger] events[i]).event_type@,
            ),
    ensures
        after_events(p, events, outs).enabled == !five_failed_in_a_row(
            p.failures() as nat,
            successes(outs),
        ),
        !five_failed_in_a_row(p.failures() as nat, successes(outs)) ==> after_events(p, events, outs) == after_outcomes(
            p,
            successes(outs),
        ),
    decreases events.len(),
{
    let oks = successes(outs);
    if events.len() == 0 {
        law_outcome_runs(p, oks);
        assert(oks =~= Seq::<bool>::empty());
    } else {
        let pe = events.drop_last();
        let po = outs.drop_last();
        law_event_runs(p, pe, po);
        let prev = after_events(p, pe, po);
        assert(successes(po) =~= oks.drop_last());
        assert forall|i: int| 0 <= i <= oks.drop_last().len() implies #[trigger] oks.take(i)
            == oks.drop_last().take(i) by {
            assert(oks.take(i) =~= oks.drop_last().take(i));
        }
        law_outcome_runs(p, oks);
        law_outcome_runs(p, oks.drop_last());
        lemma_after_outcomes_manifest(p, oks.drop_last());
        if five_failed_in_a_row(p.failures() as nat, oks.drop_last()) {
            let i = choose|i: int|
                1 <= i <= oks.drop_last().len() && failures_after(
                    p.failures() as nat,
                    #[trigger] oks.drop_last().take(i),
                ) >= 5;
            assert(oks.take(i) == oks.drop_last().take(i));
            assert(!prev.spec_wants(events.last()));
        } else {
            assert(prev.manifest == p.manifest);
            assert(strs(p.manifest.events.subscribe@).contains(events[events.len() - 1].event_type@));
            assert(prev.spec_wants(events.last()));
            assert(oks.last() == (outs.last() is Some));
        }
    }
}

proof fn lemma_after_outcomes_manifest(p: PluginStatus, outs: Seq<bool>)
    ensures
        after_outcomes(p, outs).manifest == p.manifest,
    decreases outs.len(),
{
    if outs.len() > 0 {
        lemma_after_outcomes_manifest(p, outs.drop_last());
    }
}

} // verus!
