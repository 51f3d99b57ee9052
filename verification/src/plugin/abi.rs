use vstd::prelude::*;

pub mod event_types;

verus! {

/// Event sent from the host to a plugin.
#[derive(Debug, Clone)]
pub struct PluginEvent {
    pub event_type: String,
    pub uri: Option<String>,
    pub language: Option<String>,
    pub line: Option<u32>,
    pub content_changed: bool,
}

/// Response from a plugin to the host.
#[derive(Debug, Clone)]
pub struct PluginResponse {
    pub decorations: Vec<Decoration>,
}

impl Default for PluginResponse {
    fn default() -> (r: PluginResponse)
        ensures
            r.decorations@.len() == 0,
    {
        PluginResponse { decorations: Vec::new() }
    }
}

/// A visual decoration produced by a plugin.
#[derive(Debug, Clone)]
pub struct Decoration {
    pub line: u32,
    pub col_start: Option<u32>,
    pub col_end: Option<u32>,
    pub color: Option<String>,
    pub style: String,
    pub annotation: Option<String>,
    pub side: Option<String>,
}

/// The style a decoration has when none is given.
pub fn default_style() -> (s: String)
    ensures
        s@ == "foreground"@,
{
    String::from_str("foreground")
}

/// Plugin metadata.
#[derive(Debug, Clone)]
pub struct PluginInfo {
    pub name: String,
    pub version: String,
    pub description: Option<String>,
}

} // verus!
