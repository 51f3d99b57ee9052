use kode::event::{EditorCommand, KeyCode, KeyEvent, KodeEvent};
use kode::plugin::abi::{default_style, event_types, Decoration, PluginEvent, PluginResponse};
use kode::plugin::event_bridge::to_plugin_event;
use kode::plugin::manifest::{
    default_wasm, EventConfig, LimitsConfig, PluginManifest, PluginMeta,
};
use kode::plugin::registry::{fuel_limit, memory_bytes, PluginManager, PluginStatus};

#[test]
fn tick_converts() {
    let event = to_plugin_event(&KodeEvent::Tick);
    assert!(event.is_some());
    assert_eq!(event.unwrap().event_type, "tick");
}

#[test]
fn cursor_move_converts() {
    let key = KeyEvent::plain(KeyCode::Down);
    let event = to_plugin_event(&KodeEvent::Key(key));
    assert!(event.is_some());
    assert_eq!(event.unwrap().event_type, "cursor_move");
}

#[test]
fn insert_char_converts() {
    let event = to_plugin_event(&KodeEvent::Command(EditorCommand::InsertChar('a')));
    assert!(event.is_some());
    assert_eq!(event.unwrap().event_type, "buffer_change");
}

#[test]
fn quit_does_not_convert() {
    let event = to_plugin_event(&KodeEvent::Quit);
    assert!(event.is_none());
}

#[test]
fn open_and_save_convert() {
    let open = to_plugin_event(&KodeEvent::Command(EditorCommand::Open("/tmp/Main.kt".into()))).unwrap();
    assert_eq!(open.event_type, event_types::BUFFER_OPEN);
    assert_eq!(open.uri.as_deref(), Some("file:///tmp/Main.kt"));
    assert!(!open.content_changed);
    let save = to_plugin_event(&KodeEvent::Command(EditorCommand::Save)).unwrap();
    assert_eq!(save.event_type, event_types::BUFFER_SAVE);
    assert!(save.uri.is_none());
    let change = to_plugin_event(&KodeEvent::Command(EditorCommand::DeleteBackward)).unwrap();
    assert!(change.content_changed);
    assert!(to_plugin_event(&KodeEvent::Command(EditorCommand::Undo)).is_none());
    assert!(to_plugin_event(&KodeEvent::Key(KeyEvent::plain(KeyCode::Char('x')))).is_none());
    assert!(to_plugin_event(&KodeEvent::Resize { width: 10, height: 20 }).is_none());
}

fn manifest(name: &str, subscribe: &[&str]) -> PluginManifest {
    PluginManifest {
        plugin: PluginMeta {
            name: name.into(),
            version: "0.1.0".into(),
            description: String::new(),
            wasm: default_wasm(),
        },
        events: EventConfig { subscribe: subscribe.iter().map(|s| s.to_string()).collect() },
        limits: LimitsConfig::default(),
        base_dir: "/plugins/demo".into(),
    }
}

#[test]
fn defaults() {
    let m = manifest("minimal", &[]);
    assert_eq!(m.plugin.wasm, "plugin.wasm");
    assert_eq!(m.limits.max_memory_mb, 64);
    assert_eq!(m.limits.timeout_ms, 200);
    assert!(EventConfig::default().subscribe.is_empty());
    assert_eq!(default_style(), "foreground");
    assert!(PluginResponse::default().decorations.is_empty());
}

#[test]
fn subscribes_to_check() {
    let manifest = manifest("test", &["buffer_open", "tick"]);
    assert!(manifest.subscribes_to("buffer_open"));
    assert!(manifest.subscribes_to("tick"));
    assert!(!manifest.subscribes_to("buffer_change"));
}

#[test]
fn wasm_path_joins() {
    let m = manifest("demo", &[]);
    assert_eq!(m.wasm_path(), "/plugins/demo/plugin.wasm");
    let mut abs = manifest("demo", &[]);
    abs.plugin.wasm = "/opt/x.wasm".into();
    assert_eq!(abs.wasm_path(), "/opt/x.wasm");
}

#[test]
fn limits_arithmetic() {
    let limits = LimitsConfig { max_memory_mb: 32, timeout_ms: 100 };
    assert_eq!(fuel_limit(&limits), 1_000_000);
    assert_eq!(memory_bytes(&limits), 32 * 1024 * 1024);
}

#[test]
fn new_plugin_manager() {
    let pm = PluginManager::new();
    assert_eq!(pm.plugin_count(), 0);
    assert!(pm.list_plugins().is_empty());
}

#[test]
fn get_decorations_empty() {
    let pm = PluginManager::new();
    assert!(pm.get_decorations("file:///test.kt").is_empty());
}

fn event(event_type: &str, uri: Option<&str>) -> PluginEvent {
    PluginEvent {
        event_type: event_type.into(),
        uri: uri.map(|u| u.to_string()),
        language: None,
        line: None,
        content_changed: false,
    }
}

fn decoration(line: u32) -> Decoration {
    Decoration {
        line,
        col_start: None,
        col_end: None,
        color: Some("#fab387".into()),
        style: default_style(),
        annotation: None,
        side: None,
    }
}

#[test]
fn fifth_failure_disables() {
    let mut status = PluginStatus::new(manifest("flaky", &["tick"]));
    let tick = event("tick", None);
    assert!(status.wants(&tick));
    for _ in 0..4 {
        status.record_outcome(false);
        assert!(status.enabled);
    }
    status.record_outcome(false);
    assert!(!status.enabled);
    assert!(!status.wants(&tick));
}

#[test]
fn success_resets_failures() {
    let mut status = PluginStatus::new(manifest("flaky", &["tick"]));
    for _ in 0..4 {
        status.record_outcome(false);
    }
    status.record_outcome(true);
    assert_eq!(status.consecutive_failures, 0);
    for _ in 0..4 {
        status.record_outcome(false);
    }
    assert!(status.enabled);
    assert!(!status.wants(&event("buffer_open", None)));
}

#[test]
fn enable_disable_and_list() {
    let mut pm = PluginManager::default();
    let mut described = manifest("todo", &["buffer_open"]);
    described.plugin.description = "Highlights TODO comments".into();
    pm.add_plugin(PluginStatus::new(described));
    pm.add_plugin(PluginStatus::new(manifest("lint", &["buffer_save"])));
    assert_eq!(pm.plugin_count(), 2);
    let infos = pm.list_plugins();
    assert_eq!(infos[0].name, "todo");
    assert_eq!(infos[0].description.as_deref(), Some("Highlights TODO comments"));
    assert_eq!(infos[1].description, None);
    assert!(pm.disable_plugin("lint"));
    assert!(!pm.plugin(1).enabled);
    assert!(!pm.wants_event(1, &event("buffer_save", None)));
    assert!(pm.enable_plugin("lint"));
    assert!(pm.wants_event(1, &event("buffer_save", None)));
    assert!(!pm.enable_plugin("missing"));
    pm.record_outcome(0, false);
    assert_eq!(pm.plugin(0).consecutive_failures, 1);
}

#[test]
fn decorations_cached_by_uri() {
    let mut pm = PluginManager::new();
    pm.cache_decorations(&Some("file:///a.kt".into()), vec![decoration(3)]);
    pm.cache_decorations(&None, vec![decoration(9)]);
    pm.cache_decorations(&Some("file:///b.kt".into()), Vec::new());
    assert_eq!(pm.get_decorations("file:///a.kt").len(), 1);
    assert_eq!(pm.get_decorations("file:///a.kt")[0].line, 3);
    assert!(pm.get_decorations("file:///b.kt").is_empty());
    pm.cache_decorations(&Some("file:///a.kt".into()), vec![decoration(5), decoration(6)]);
    let lines: Vec<u32> = pm.get_decorations("file:///a.kt").iter().map(|d| d.line).collect();
    assert_eq!(lines, vec![5, 6]);
}

#[test]
fn failure_runs_reset_by_success() {
    let mut p = PluginStatus::new(manifest("lint", &["tick"]));
    for _ in 0..4 {
        p.record_outcome(false);
    }
    p.record_outcome(true);
    assert_eq!(p.consecutive_failures, 0);
    for _ in 0..4 {
        p.record_outcome(false);
    }
    assert!(p.enabled);
    assert_eq!(p.consecutive_failures, 4);
    p.record_outcome(false);
    assert!(!p.enabled);
}

#[test]
fn finish_event_records_and_hands_on() {
    let mut m = PluginManager::new();
    m.add_plugin(PluginStatus::new(manifest("lint", &["tick"])));
    let r = m.finish_event(0, Some(PluginResponse { decorations: vec![decoration(3)] }));
    assert_eq!(r.unwrap().decorations.len(), 1);
    assert_eq!(m.plugin(0).consecutive_failures, 0);
    for _ in 0..4 {
        assert!(m.finish_event(0, None).is_none());
    }
    assert!(m.wants_event(0, &event("tick", None)));
    assert!(m.finish_event(0, None).is_none());
    assert!(!m.wants_event(0, &event("tick", None)));
}
