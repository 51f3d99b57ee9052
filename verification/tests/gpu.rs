use kode::gpu::pointer::{click_target, wheel_scroll};
use kode::editor::buffer::Buffer;
use kode::event::{KeyCode, KeyEvent, Modifiers};
use kode::gpu::explorer::{handle_editor_key, handle_explorer_key, ExplorerCommand, KeyRoute, PaneKind};
use kode::gpu::search::{update_search_matches, SearchKey, SearchState};
use kode::gpu::input::{translate_winit_key, LogicalKey, ModifierState, NamedKey};
use kode::gpu::style::{file_icon, syntax_line_class, SyntaxClass};
use kode::gpu::welcome::{WelcomeAction, WelcomeScreen};

fn plain(c: char) -> KeyEvent {
    KeyEvent::plain(KeyCode::Char(c))
}

fn screen(n: usize) -> WelcomeScreen {
    WelcomeScreen::new((0..n).map(|i| format!("/work/p{}", i)).collect())
}

#[test]
fn welcome_navigation() {
    let mut ws = screen(3);
    assert!(matches!(ws.handle_key(plain('j')), WelcomeAction::Nothing));
    assert!(matches!(ws.handle_key(KeyEvent::plain(KeyCode::Down)), WelcomeAction::Nothing));
    assert!(matches!(ws.handle_key(plain('j')), WelcomeAction::Nothing));
    assert_eq!(ws.selected, 2);
    ws.handle_key(plain('k'));
    assert_eq!(ws.selected, 1);
    match ws.handle_key(KeyEvent::plain(KeyCode::Enter)) {
        WelcomeAction::OpenProject(p) => assert_eq!(p, "/work/p1"),
        _ => panic!("expected the selected project to open"),
    }
    ws.handle_key(plain('g'));
    assert_eq!((ws.selected, ws.scroll_offset), (0, 0));
    ws.handle_key(KeyEvent::new(KeyCode::Char('G'), Modifiers::SHIFT()));
    assert_eq!(ws.selected, 2);
    assert!(matches!(ws.handle_key(plain('q')), WelcomeAction::Quit));
    assert!(matches!(ws.handle_key(plain('o')), WelcomeAction::OpenFolderPicker));
}

#[test]
fn welcome_remove_last_moves_selection_up() {
    let mut ws = screen(2);
    ws.handle_key(plain('j'));
    assert!(matches!(ws.handle_key(plain('d')), WelcomeAction::SaveRecent));
    assert_eq!(ws.recent, vec!["/work/p0".to_string()]);
    assert_eq!(ws.selected, 0);
    assert!(matches!(ws.handle_key(plain('d')), WelcomeAction::SaveRecent));
    assert!(ws.recent.is_empty());
    assert!(matches!(ws.handle_key(plain('d')), WelcomeAction::Nothing));
    assert!(matches!(ws.handle_key(plain('l')), WelcomeAction::Nothing));
}

#[test]
fn welcome_scrolls_selection_into_view() {
    let mut ws = screen(10);
    ws.selected = 7;
    ws.ensure_visible_with_layout(3);
    assert_eq!(ws.scroll_offset, 5);
    ws.selected = 2;
    ws.ensure_visible_with_layout(3);
    assert_eq!(ws.scroll_offset, 2);
}

fn mods(control: bool, alt: bool, shift: bool, super_key: bool) -> ModifierState {
    ModifierState { control, alt, shift, super_key }
}

#[test]
fn translate_keys() {
    let none = mods(false, false, false, false);
    let k = translate_winit_key(true, &LogicalKey::Character("x".into()), none).unwrap();
    assert_eq!(k, KeyEvent::plain(KeyCode::Char('x')));
    let k = translate_winit_key(true, &LogicalKey::Named(NamedKey::F5), mods(true, false, true, false)).unwrap();
    assert_eq!(k.code, KeyCode::F(5));
    assert_eq!(k.modifiers, Modifiers::CTRL() | Modifiers::SHIFT());
    let k = translate_winit_key(true, &LogicalKey::Named(NamedKey::ArrowLeft), mods(false, true, false, true)).unwrap();
    assert_eq!(k.code, KeyCode::Left);
    assert!(k.modifiers.contains(Modifiers::ALT()) && k.modifiers.contains(Modifiers::SUPER()));
    assert!(translate_winit_key(false, &LogicalKey::Character("x".into()), none).is_none());
    assert!(translate_winit_key(true, &LogicalKey::Character(String::new()), none).is_none());
    assert!(translate_winit_key(true, &LogicalKey::Named(NamedKey::Other), none).is_none());
    assert!(translate_winit_key(true, &LogicalKey::Unidentified, none).is_none());
}

#[test]
fn explorer_keys() {
    let esc = KeyEvent::plain(KeyCode::Escape);
    assert_eq!(handle_explorer_key(true, false, plain('y')), ExplorerCommand::ConfirmDelete);
    assert_eq!(handle_explorer_key(true, true, plain('n')), ExplorerCommand::CancelInput);
    assert_eq!(handle_explorer_key(false, true, plain('q')), ExplorerCommand::PushInput('q'));
    assert_eq!(handle_explorer_key(false, true, esc), ExplorerCommand::CancelInput);
    assert_eq!(handle_explorer_key(false, false, esc), ExplorerCommand::ToggleExplorer);
    assert_eq!(handle_explorer_key(false, false, plain('A')), ExplorerCommand::StartCreate(true));
    assert_eq!(handle_explorer_key(false, false, KeyEvent::plain(KeyCode::Enter)), ExplorerCommand::Activate);
    assert_eq!(handle_explorer_key(false, false, plain('z')), ExplorerCommand::Nothing);
}

#[test]
fn icons() {
    assert_eq!(file_icon("src", true, true), "📂");
    assert_eq!(file_icon("src", true, false), "📁");
    assert_eq!(file_icon("Main.kt", false, false), "🇰");
    assert_eq!(file_icon("archive.tar.gz", false, false), "📄");
    assert_eq!(file_icon("Cargo.lock", false, false), "🔒");
    assert_eq!(file_icon("toml", false, false), "⚙️");
    assert_eq!(file_icon("notes.", false, false), "📄");
}

#[test]
fn syntax_classes() {
    assert_eq!(syntax_line_class("   // comment"), SyntaxClass::Comment);
    assert_eq!(syntax_line_class("# heading"), SyntaxClass::Comment);
    assert_eq!(syntax_line_class("\"text\""), SyntaxClass::StringLiteral);
    assert_eq!(syntax_line_class("import java.util.List"), SyntaxClass::Import);
    assert_eq!(syntax_line_class("@Service"), SyntaxClass::Annotation);
    assert_eq!(syntax_line_class("\tfun main() {"), SyntaxClass::Keyword);
    assert_eq!(syntax_line_class("x = 1"), SyntaxClass::Plain);
    assert_eq!(syntax_line_class("   "), SyntaxClass::Plain);
    assert_eq!(syntax_line_class("return"), SyntaxClass::Plain);
}

fn lines(text: &[&str]) -> Vec<String> {
    text.iter().map(|l| l.to_string()).collect()
}

#[test]
fn search_matches_case_insensitive() {
    let doc = lines(&["Hello hello", "no", "HELLO"]);
    assert_eq!(
        update_search_matches("hello", &doc),
        Some(vec![(0, 0, 5), (0, 6, 11), (2, 0, 5)])
    );
    assert_eq!(update_search_matches("", &doc), Some(vec![]));
    assert_eq!(update_search_matches("aa", &lines(&["aaa"])), Some(vec![(0, 0, 2), (0, 1, 3)]));
    assert_eq!(update_search_matches("zz", &doc), Some(vec![]));
}

#[test]
fn search_cannot_resume_inside_a_char() {
    assert_eq!(update_search_matches("é", &lines(&["café"])), None);
    assert_eq!(update_search_matches("é", &lines(&["cafe"])), Some(vec![]));
}

#[test]
fn search_keys() {
    let doc = lines(&["one two", "two"]);
    let cmd_f = KeyEvent::new(KeyCode::Char('f'), Modifiers::SUPER());
    let mut s = SearchState::new();
    assert_eq!(s.handle_key(plain('t'), true, &doc), SearchKey::Pass);
    assert_eq!(s.handle_key(cmd_f, false, &doc), SearchKey::Pass);
    assert_eq!(s.handle_key(cmd_f, true, &doc), SearchKey::Handled);
    assert!(s.active());
    assert_eq!(s.handle_key(plain('t'), true, &doc), SearchKey::JumpTo { line: 0, col: 4 });
    assert_eq!(s.handle_key(KeyEvent::new(KeyCode::Char('W'), Modifiers::SHIFT()), true, &doc), SearchKey::JumpTo { line: 0, col: 4 });
    assert_eq!(s.query(), "tW");
    assert_eq!(s.matches(), &[(0, 4, 6), (1, 0, 2)]);
    assert_eq!(s.handle_key(KeyEvent::plain(KeyCode::Enter), true, &doc), SearchKey::JumpTo { line: 1, col: 0 });
    assert_eq!(s.current_match(), 1);
    assert_eq!(s.handle_key(KeyEvent::plain(KeyCode::Enter), true, &doc), SearchKey::JumpTo { line: 0, col: 4 });
    assert_eq!(s.handle_key(KeyEvent::new(KeyCode::Char('x'), Modifiers::CTRL()), true, &doc), SearchKey::Handled);
    assert_eq!(s.handle_key(KeyEvent::plain(KeyCode::Backspace), true, &doc), SearchKey::Handled);
    assert_eq!(s.query(), "t");
    assert_eq!(s.matches().len(), 2);
    assert_eq!(s.handle_key(KeyEvent::plain(KeyCode::Escape), true, &doc), SearchKey::Handled);
    assert!(!s.active());
    assert_eq!(s.query(), "");
    assert!(s.matches().is_empty());
}

#[test]
fn editor_key_routes() {
    let cmd_s = KeyEvent::new(KeyCode::Char('s'), Modifiers::SUPER());
    let ctrl_a = KeyEvent::new(KeyCode::Char('a'), Modifiers::CTRL());
    assert_eq!(handle_editor_key(Some(PaneKind::Terminal), cmd_s), KeyRoute::SaveFocused);
    assert_eq!(handle_editor_key(Some(PaneKind::Terminal), ctrl_a), KeyRoute::EditorKeys);
    assert_eq!(handle_editor_key(Some(PaneKind::Terminal), plain('a')), KeyRoute::Terminal);
    assert_eq!(handle_editor_key(Some(PaneKind::FileExplorer), plain('j')), KeyRoute::Explorer);
    assert_eq!(handle_editor_key(Some(PaneKind::FileExplorer), ctrl_a), KeyRoute::EditorKeys);
    assert_eq!(handle_editor_key(Some(PaneKind::Editor), plain('j')), KeyRoute::EditorKeys);
    assert_eq!(handle_editor_key(None, plain('j')), KeyRoute::EditorKeys);
}

#[test]
fn wheel_scroll_clamps() {
    assert_eq!(wheel_scroll(5, -3, 100), 2);
    assert_eq!(wheel_scroll(1, -3, 100), 0);
    assert_eq!(wheel_scroll(98, 3, 100), 99);
    assert_eq!(wheel_scroll(10, 2, 100), 12);
    assert_eq!(wheel_scroll(50, 2, 10), 9);
    assert_eq!(wheel_scroll(0, 3, 0), 0);
    assert_eq!(wheel_scroll(4, i32::MIN, 10), 0);
}

#[test]
fn click_target_clamps() {
    let buffer = Buffer::from_str("ab\ncdef\n");
    assert_eq!(click_target(&buffer, 1, 2), (1, 2));
    assert_eq!(click_target(&buffer, 0, 9), (0, 2));
    assert_eq!(click_target(&buffer, 10, 10), (2, 0));
    assert_eq!(click_target(&buffer, 1, 7), (1, 4));
}
