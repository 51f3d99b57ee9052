use kode::editor::buffer::Buffer;
use kode::editor::command::Command;
use kode::event::{KeyCode, KeyEvent, Modifiers};
use kode::geometry::Position;
use kode::keymap::bindings::{Keybinding, KeybindingRegistry};
use kode::keymap::mode::{CursorStyle, Mode};
use kode::keymap::motion::{match_bracket, Motion};
use kode::keymap::operator::Operator;
use kode::keymap::parser::{Action, KeyParser, ParseResult};
use kode::keymap::text_object::{find_surrounding, TextObject};
use kode::keymap::workspace_keys::{is_prefix, parse_workspace_key, WorkspaceAction};

fn buf(s: &str) -> Buffer {
    Buffer::from_str(s)
}

fn key(c: char) -> KeyEvent {
    KeyEvent::plain(KeyCode::Char(c))
}

#[test]
fn test_move_left_right() {
    let b = buf("hello");
    assert_eq!(Motion::Left.apply(Position::new(0, 2), &b), Position::new(0, 1));
    assert_eq!(Motion::Right.apply(Position::new(0, 2), &b), Position::new(0, 3));
}

#[test]
fn test_word_forward() {
    let b = buf("hello world foo");
    let pos = Motion::WordForward.apply(Position::new(0, 0), &b);
    assert_eq!(pos, Position::new(0, 6));
}

#[test]
fn test_word_backward() {
    let b = buf("hello world foo");
    let pos = Motion::WordBackward.apply(Position::new(0, 6), &b);
    assert_eq!(pos, Position::new(0, 0));
}

#[test]
fn test_match_bracket() {
    let b = buf("(hello (world))");
    assert_eq!(match_bracket(Position::new(0, 0), &b), Position::new(0, 14));
    assert_eq!(match_bracket(Position::new(0, 7), &b), Position::new(0, 13));
}

#[test]
fn test_first_non_blank() {
    let b = buf("    hello");
    assert_eq!(Motion::FirstNonBlank.apply(Position::new(0, 0), &b), Position::new(0, 4));
}

#[test]
fn motions_at_edges() {
    let b = buf("ab\ncd\n");
    assert_eq!(Motion::Left.apply(Position::new(0, 0), &b), Position::new(0, 0));
    assert_eq!(Motion::Right.apply(Position::new(0, 1), &b), Position::new(0, 1));
    assert_eq!(Motion::Down.apply(Position::new(2, 0), &b), Position::new(2, 0));
    assert_eq!(Motion::Up.apply(Position::new(0, 1), &b), Position::new(0, 1));
    assert_eq!(Motion::LineEnd.apply(Position::new(1, 0), &b), Position::new(1, 1));
    assert_eq!(Motion::FileEnd.apply(Position::new(0, 1), &b), Position::new(2, 0));
    assert_eq!(Motion::LineDown(10).apply(Position::new(0, 1), &b), Position::new(2, 1));
    assert_eq!(Motion::LineUp(10).apply(Position::new(1, 1), &b), Position::new(0, 1));
    assert_eq!(Motion::WordEnd.apply(Position::new(0, 0), &b), Position::new(0, 1));
}

#[test]
fn find_char_motions() {
    let b = buf("a,b,c");
    assert_eq!(Motion::FindChar(',').apply(Position::new(0, 1), &b), Position::new(0, 3));
    assert_eq!(Motion::FindCharBackward(',').apply(Position::new(0, 3), &b), Position::new(0, 1));
    assert_eq!(Motion::FindChar('z').apply(Position::new(0, 0), &b), Position::new(0, 0));
}

#[test]
fn test_inner_word() {
    let b = buf("hello world");
    let (start, end) = TextObject::InnerWord.range(Position::new(0, 7), &b).unwrap();
    assert_eq!(start, Position::new(0, 6));
    assert_eq!(end, Position::new(0, 10));
}

#[test]
fn test_inner_paren() {
    let b = buf("foo(bar, baz)");
    let (start, end) = find_surrounding(Position::new(0, 5), &b, '(', ')', false).unwrap();
    assert_eq!(start, Position::new(0, 4));
    assert_eq!(end, Position::new(0, 11));
}

#[test]
fn test_inner_quote() {
    let b = buf(r#"say "hello world" now"#);
    let (start, end) = TextObject::InnerQuote('"').range(Position::new(0, 8), &b).unwrap();
    assert_eq!(start, Position::new(0, 5));
    assert_eq!(end, Position::new(0, 15));
}

#[test]
fn around_objects() {
    let b = buf("foo(bar)  baz");
    assert_eq!(
        TextObject::AroundParen.range(Position::new(0, 5), &b),
        Some((Position::new(0, 3), Position::new(0, 7)))
    );
    assert_eq!(
        TextObject::AroundWord.range(Position::new(0, 1), &b),
        Some((Position::new(0, 0), Position::new(0, 2)))
    );
    assert_eq!(TextObject::InnerBrace.range(Position::new(0, 5), &b), None);
    assert_eq!(TextObject::InnerWord.range(Position::new(5, 0), &b), None);
}

#[test]
fn normal_mode_motion() {
    let mut parser = KeyParser::new();
    parser.set_mode(Mode::Normal);
    match parser.parse(key('j')) {
        ParseResult::Complete(Action::Motion(Motion::Down)) => {}
        other => panic!("Expected Motion::Down, got {:?}", other),
    }
}

#[test]
fn insert_mode_char() {
    let mut parser = KeyParser::new();
    parser.set_mode(Mode::Insert);
    match parser.parse(key('a')) {
        ParseResult::Complete(Action::Command(Command::InsertChar('a'))) => {}
        other => panic!("Expected InsertChar('a'), got {:?}", other),
    }
}

#[test]
fn operator_motion() {
    let mut parser = KeyParser::new();
    parser.set_mode(Mode::Normal);
    assert!(matches!(parser.parse(key('d')), ParseResult::Pending));
    match parser.parse(key('w')) {
        ParseResult::Complete(Action::OperatorMotion {
            operator: Operator::Delete,
            motion: Motion::WordForward,
            count: 1,
        }) => {}
        other => panic!("Expected dw, got {:?}", other),
    }
}

#[test]
fn count_prefix() {
    let mut parser = KeyParser::new();
    parser.set_mode(Mode::Normal);
    assert!(matches!(parser.parse(key('3')), ParseResult::Pending));
    match parser.parse(key('j')) {
        ParseResult::Complete(Action::Motion(Motion::LineDown(3))) => {}
        other => panic!("Expected 3j, got {:?}", other),
    }
}

#[test]
fn escape_leaves_insert_mode() {
    let mut parser = KeyParser::default();
    parser.set_mode(Mode::Insert);
    match parser.parse(KeyEvent::plain(KeyCode::Escape)) {
        ParseResult::Complete(Action::ChangeMode(Mode::Normal)) => {}
        other => panic!("Expected a change to normal mode, got {:?}", other),
    }
}

#[test]
fn workspace_prefix_then_split() {
    let mut parser = KeyParser::new();
    parser.set_mode(Mode::Normal);
    let prefix = KeyEvent::new(KeyCode::Char('a'), Modifiers::CTRL());
    assert!(matches!(parser.parse(prefix), ParseResult::Pending));
    match parser.parse(key('|')) {
        ParseResult::Complete(Action::Workspace(WorkspaceAction::SplitVertical)) => {}
        other => panic!("Expected a vertical split, got {:?}", other),
    }
}

#[test]
fn mode_properties() {
    assert!(Mode::Insert.is_insert());
    assert!(Mode::Normal.is_normal());
    assert!(Mode::Visual.is_visual());
    assert_eq!(Mode::Insert.cursor_style(), CursorStyle::Line);
    assert_eq!(Mode::Normal.cursor_style(), CursorStyle::Block);
    assert_eq!(Mode::Normal.display_name(), "NORMAL");
    assert_eq!(Mode::default(), Mode::Normal);
}

#[test]
fn operator_commands() {
    let cmds = Operator::Delete.to_commands(Position::new(0, 0), Position::new(0, 2));
    assert_eq!(cmds.len(), 1);
    assert!(matches!(cmds[0], Command::DeleteForward));
    let cmds = Operator::Indent.to_commands(Position::new(4, 0), Position::new(2, 3));
    assert_eq!(cmds.len(), 3);
    assert!(cmds.iter().all(|c| matches!(c, Command::InsertText(t) if t == "    ")));
    let cmds = Operator::Unindent.to_commands(Position::new(1, 0), Position::new(1, 5));
    assert_eq!(cmds.len(), 1);
    assert!(matches!(cmds[0], Command::DeleteBackward));
}

#[test]
fn prefix_detection() {
    let key = KeyEvent::new(KeyCode::Char('a'), Modifiers::CTRL());
    assert!(is_prefix(&key));

    let key = KeyEvent::plain(KeyCode::Char('a'));
    assert!(!is_prefix(&key));
}

#[test]
fn split_keys() {
    let key = KeyEvent::plain(KeyCode::Char('|'));
    assert_eq!(parse_workspace_key(&key), Some(WorkspaceAction::SplitVertical));

    let key = KeyEvent::plain(KeyCode::Char('-'));
    assert_eq!(parse_workspace_key(&key), Some(WorkspaceAction::SplitHorizontal));
}

#[test]
fn focus_keys() {
    let key = KeyEvent::plain(KeyCode::Char('h'));
    assert_eq!(parse_workspace_key(&key), Some(WorkspaceAction::FocusLeft));
}

#[test]
fn resize_keys() {
    let key = KeyEvent::plain(KeyCode::Char('H'));
    assert_eq!(parse_workspace_key(&key), Some(WorkspaceAction::ResizeLeft(1)));
}

#[test]
fn tab_keys() {
    assert_eq!(
        parse_workspace_key(&KeyEvent::plain(KeyCode::Char('c'))),
        Some(WorkspaceAction::NewTab)
    );
    assert_eq!(
        parse_workspace_key(&KeyEvent::plain(KeyCode::Char('n'))),
        Some(WorkspaceAction::NextTab)
    );
}

#[test]
fn unknown_key() {
    let key = KeyEvent::plain(KeyCode::Char('q'));
    assert_eq!(parse_workspace_key(&key), None);
}

fn binding(mode: Mode, c: char, action: &str) -> Keybinding {
    Keybinding { mode, key: key(c), action: action.into(), description: String::new() }
}

#[test]
fn bindings_register_and_replace() {
    let mut reg = KeybindingRegistry::new();
    reg.register(binding(Mode::Normal, 'x', "cut"));
    reg.register(binding(Mode::Insert, 'x', "type"));
    reg.register(binding(Mode::Normal, 'y', "yank"));
    assert_eq!(reg.get(Mode::Normal, key('x')).unwrap().action, "cut");
    reg.register(binding(Mode::Normal, 'x', "delete"));
    assert_eq!(reg.get(Mode::Normal, key('x')).unwrap().action, "delete");
    assert_eq!(reg.get(Mode::Insert, key('x')).unwrap().action, "type");
    assert!(reg.get(Mode::Visual, key('x')).is_none());
    let mut normal: Vec<String> = reg.all_for_mode(Mode::Normal).iter().map(|b| b.action.clone()).collect();
    normal.sort();
    assert_eq!(normal, vec!["delete".to_string(), "yank".to_string()]);
    assert!(KeybindingRegistry::default().all_for_mode(Mode::Normal).is_empty());
}
