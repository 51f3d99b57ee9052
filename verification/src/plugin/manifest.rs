use vstd::prelude::*;

use crate::path::{path_join, path_join_of};
use crate::text::{str_eq, strs};

verus! {

/// Plugin manifest, as read from a plugin's `plugin.toml`.
#[derive(Debug, Clone)]
pub struct PluginManifest {
    pub plugin: PluginMeta,
    pub events: EventConfig,
    pub limits: LimitsConfig,
    /// Directory the manifest was loaded from.
    pub base_dir: String,
}

/// Plugin metadata section.
#[derive(Debug, Clone)]
pub struct PluginMeta {
    pub name: String,
    pub version: String,
    pub description: String,
    pub wasm: String,
}

/// Event subscription configuration.
#[derive(Debug, Clone)]
pub struct EventConfig {
    pub subscribe: Vec<String>,
}

impl Default for EventConfig {
    fn default() -> (c: EventConfig)
        ensures
            c.subscribe@.len() == 0,
    {
        EventConfig { subscribe: Vec::new() }
    }
}

/// Resource limits for the plugin.
#[derive(Debug, Clone, Copy)]
pub struct LimitsConfig {
    pub max_memory_mb: u32,
    pub timeout_ms: u64,
}

impl Default for LimitsConfig {
    fn default() -> (c: LimitsConfig)
        ensures
            c.max_memory_mb == 64,
            c.timeout_ms == 200,
    {
        LimitsConfig { max_memory_mb: default_memory(), timeout_ms: default_timeout() }
    }
}

/// The WASM file name a manifest names when it names none.
pub fn default_wasm() -> (s: String)
    ensures
        s@ == "plugin.wasm"@,
{
    String::from_str("plugin.wasm")
}

/// The memory limit, in MiB, when the manifest sets none.
pub fn default_memory() -> (m: u32)
    ensures
        m == 64,
{
    64
}

/// The time limit per event, in milliseconds, when the manifest sets none.
pub fn default_timeout() -> (t: u64)
    ensures
        t == 200,
{
    200
}

impl PluginManifest {
    /// The full path to the WASM binary: the file named in the manifest,
    /// under the manifest's directory.
    pub fn wasm_path(&self) -> (r: String)
        ensures
            r@ == path_join_of(self.base_dir@, self.plugin.wasm@),
    {
        path_join(self.base_dir.as_str(), self.plugin.wasm.as_str())
    }

    /// Whether the plugin subscribes to the given event type.
    pub fn subscribes_to(&self, event_type: &str) -> (r: bool)
        ensures
            r == strs(self.events.subscribe@).contains(event_type@),
    {
        let subs = &self.events.subscribe;
        let mut i: usize = 0;
        while i < subs.len()
            invariant
                i <= subs@.len(),
                subs@ == self.events.subscribe@,
                forall|k: int| 0 <= k < i ==> subs@[k]@ != event_type@,
            decreases subs@.len() - i,
        {
            if str_eq(subs[i].as_str(), event_type) {
                assert(strs(subs@)[i as int] == event_type@);
                return true;
            }
            i = i + 1;
        }
        assert(!strs(subs@).contains(event_type@)) by {
            if strs(subs@).contains(event_type@) {
                let k = choose|k: int| 0 <= k < strs(subs@).len() && strs(subs@)[k] == event_type@;
                assert(subs@[k]@ == event_type@);
            }
        }
        false
    }
}

} // verus!
