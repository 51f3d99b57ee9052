use kode::app::{command_line_action, CommandLineAction};
use kode::color::hex_rgba;
use kode::config::{dirs_or_default, KeymapConfig, ThemeConfig};
use kode::error::KodeError;
use kode::event::{KeyCode, KeyEvent, Modifiers};
use kode::geometry::Position;

#[test]
fn modifier_operations() {
    let ctrl_shift = Modifiers::CTRL() | Modifiers::SHIFT();
    assert!(ctrl_shift.contains(Modifiers::CTRL()));
    assert!(ctrl_shift.contains(Modifiers::SHIFT()));
    assert!(!ctrl_shift.contains(Modifiers::ALT()));
}

#[test]
fn from_hex_6() {
    let (r, g, b, a) = hex_rgba("#ff0000").unwrap();
    let (r, g) = (r as f32 / 255.0, g as f32 / 255.0);
    assert!((r - 1.0).abs() < f32::EPSILON);
    assert!(g.abs() < f32::EPSILON);
    assert_eq!((b, a), (0, 255));
}

#[test]
fn from_hex_8() {
    let (_, _, _, a) = hex_rgba("#ff000080").unwrap();
    let a = a as f32 / 255.0;
    assert!((a - 128.0 / 255.0).abs() < 0.01);
}

#[test]
fn hex_components_exact() {
    assert_eq!(hex_rgba("#1e1e2e"), Some((0x1e, 0x1e, 0x2e, 255)));
    assert_eq!(hex_rgba("cdd6f4"), Some((0xcd, 0xd6, 0xf4, 255)));
    assert_eq!(hex_rgba("##AbCdEf01"), Some((0xab, 0xcd, 0xef, 0x01)));
    // An explicit plus sign is accepted in front of a single digit.
    assert_eq!(hex_rgba("+f0000"), Some((15, 0, 0, 255)));
}

#[test]
fn hex_rejects_bad_text() {
    assert_eq!(hex_rgba("#fff"), None);
    assert_eq!(hex_rgba("#ff00zz"), None);
    assert_eq!(hex_rgba(""), None);
    assert_eq!(hex_rgba("#-10000"), None);
    assert_eq!(hex_rgba("#ff00000"), None);
}

#[test]
fn error_messages() {
    assert_eq!(KodeError::Io("gone".into()).message(), "IO error: gone");
    assert_eq!(KodeError::Config("bad".into()).message(), "Config error: bad");
    assert_eq!(KodeError::Lsp("down".into()).message(), "LSP error: down");
    assert_eq!(KodeError::Parse("x".into()).message(), "Parse error: x");
    assert_eq!(KodeError::Other("plain".into()).message(), "plain");
}

#[test]
fn config_defaults() {
    let theme = ThemeConfig::default();
    assert_eq!(theme.name, "dark");
    assert!(theme.path.is_none());
    let keymap = KeymapConfig::default();
    assert_eq!(keymap.mode, "vim");
    assert!(keymap.custom_path.is_none());
}

#[test]
fn config_dir_choice() {
    assert_eq!(dirs_or_default(Some("/xdg"), Some("/home/u")), "/xdg/kode");
    assert_eq!(dirs_or_default(None, Some("/home/u")), "/home/u/.config/kode");
    assert_eq!(dirs_or_default(None, None), "./.config/kode");
}

#[test]
fn key_event_constructors() {
    let k = KeyEvent::plain(KeyCode::Enter);
    assert_eq!(k.modifiers, Modifiers::NONE());
    let k = KeyEvent::new(KeyCode::Char('x'), Modifiers::ALT());
    assert_eq!(k.code, KeyCode::Char('x'));
    assert!(k.modifiers.contains(Modifiers::ALT()));
}

#[test]
fn positions_order() {
    assert!(Position::new(1, 5) < Position::new(2, 0));
    assert!(Position::new(1, 2).le(&Position::new(1, 2)));
    assert!(!Position::new(3, 0).le(&Position::new(2, 9)));
}

#[test]
fn command_line_actions() {
    assert_eq!(command_line_action("w"), CommandLineAction::Write);
    assert_eq!(command_line_action("q"), CommandLineAction::Quit);
    assert_eq!(command_line_action("wq"), CommandLineAction::WriteQuit);
    assert_eq!(command_line_action("beans"), CommandLineAction::Beans);
    assert_eq!(command_line_action("endpoints"), CommandLineAction::Endpoints);
    assert_eq!(command_line_action("gradle bootRun"), CommandLineAction::Gradle("bootRun".to_string()));
    assert_eq!(command_line_action("gradle "), CommandLineAction::Gradle(String::new()));
    assert_eq!(command_line_action("gradle"), CommandLineAction::Unknown("gradle".to_string()));
    assert_eq!(command_line_action("qa"), CommandLineAction::Unknown("qa".to_string()));
}
