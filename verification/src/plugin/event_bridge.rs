use vstd::prelude::*;

use crate::event::{EditorCommand, KeyCode, KodeEvent};
use crate::plugin::abi::event_types;
use crate::plugin::abi::PluginEvent;

verus! {

/// What a plugin event carries besides its fixed fields: its type, its uri,
/// and whether the buffer content changed.
pub struct EventShape {
    pub event_type: Seq<char>,
    pub uri: Option<Seq<char>>,
    pub content_changed: bool,
}

pub open spec fn shape(event_type: Seq<char>, uri: Option<Seq<char>>, content_changed: bool) -> EventShape {
    EventShape { event_type, uri, content_changed }
}

pub open spec fn opt_view(o: Option<String>) -> Option<Seq<char>> {
    match o {
        Some(s) => Some(s@),
        None => None,
    }
}

/// The plugin event has the given shape, and no language or line.
pub open spec fn has_shape(e: PluginEvent, s: EventShape) -> bool {
    &&& e.event_type@ == s.event_type
    &&& opt_view(e.uri) == s.uri
    &&& e.language is None
    &&& e.line is None
    &&& e.content_changed == s.content_changed
}

/// Keys that move the cursor.
pub open spec fn is_navigation_key(code: KeyCode) -> bool {
    match code {
        KeyCode::Up | KeyCode::Down | KeyCode::Left | KeyCode::Right | KeyCode::Home
        | KeyCode::End | KeyCode::PageUp | KeyCode::PageDown => true,
        _ => false,
    }
}

/// The plugin event an editor command becomes, if any.
pub open spec fn command_event(cmd: EditorCommand) -> Option<EventShape> {
    match cmd {
        EditorCommand::Open(path) => Some(shape("buffer_open"@, Some("file://"@ + path@), false)),
        EditorCommand::InsertChar(_) | EditorCommand::NewLine | EditorCommand::DeleteForward
        | EditorCommand::DeleteBackward => Some(shape("buffer_change"@, None, true)),
        EditorCommand::Save => Some(shape("buffer_save"@, None, false)),
        _ => None,
    }
}

/// The plugin event a host event becomes, if any.
pub open spec fn plugin_event(event: KodeEvent) -> Option<EventShape> {
    match event {
        KodeEvent::Command(cmd) => command_event(cmd),
        KodeEvent::Key(key) => if is_navigation_key(key.code) {
            Some(shape("cursor_move"@, None, false))
        } else {
            None
        },
        KodeEvent::Tick => Some(shape("tick"@, None, false)),
        _ => None,
    }
}

pub open spec fn converts_to(r: Option<PluginEvent>, s: Option<EventShape>) -> bool {
    match s {
        Some(s) => r is Some && has_shape(r->0, s),
        None => r is None,
    }
}

fn simple_event(event_type: &str, content_changed: bool) -> (e: PluginEvent)
    ensures
        has_shape(e, shape(event_type@, None, content_changed)),
{
    PluginEvent {
        event_type: String::from_str(event_type),
        uri: None,
        language: None,
        line: None,
        content_changed,
    }
}

/// Convert a host event into a plugin event if applicable.
pub fn to_plugin_event(event: &KodeEvent) -> (r: Option<PluginEvent>)
    ensures
        converts_to(r, plugin_event(*event)),
{
    match event {
        KodeEvent::Command(cmd) => command_to_plugin_event(cmd),
        KodeEvent::Key(key) => match key.code {
            KeyCode::Up | KeyCode::Down | KeyCode::Left | KeyCode::Right | KeyCode::Home
            | KeyCode::End | KeyCode::PageUp | KeyCode::PageDown => {
                Some(simple_event(event_types::CURSOR_MOVE, false))
            },
            _ => None,
        },
        KodeEvent::Tick => Some(simple_event(event_types::TICK, false)),
        _ => None,
    }
}

fn command_to_plugin_event(cmd: &EditorCommand) -> (r: Option<PluginEvent>)
    ensures
        converts_to(r, command_event(*cmd)),
{
    match cmd {
        EditorCommand::Open(path) => {
            let mut uri = String::from_str("file://");
            uri.append(path.as_str());
            Some(
                PluginEvent {
                    event_type: String::from_str(event_types::BUFFER_OPEN),
                    uri: Some(uri),
                    language: None,
                    line: None,
                    content_changed: false,
                },
            )
        },
        EditorCommand::InsertChar(_) | EditorCommand::NewLine | EditorCommand::DeleteForward
        | EditorCommand::DeleteBackward => Some(simple_event(event_types::BUFFER_CHANGE, true)),
        EditorCommand::Save => Some(simple_event(event_types::BUFFER_SAVE, false)),
        _ => None,
    }
}

} // verus!
