use kode::lsp::request::{request_step, Incoming, RequestIds, RequestStep};
use kode::lsp::framing::{
    decode_frame, frame_message, message_kind, parse_usize, read_header_line, Frame, HeaderLine,
    MessageKind,
};
use kode::lsp::manager::{LspManager, LspServerConfig};

#[test]
fn decode_incomplete() {
    let bytes = b"Content-Length: 100\r\n\r\n{\"partial";
    assert_eq!(decode_frame(bytes), Frame::NoMessage);
}

#[test]
fn frame_roundtrip() {
    let body = r#"{"jsonrpc":"2.0","id":1,"result":{"capabilities":{}}}"#;
    let framed = frame_message(body);
    assert_eq!(framed, format!("Content-Length: {}\r\n\r\n{}", body.len(), body).into_bytes());
    match decode_frame(&framed) {
        Frame::Complete { body_start, total } => {
            assert_eq!(total, framed.len());
            assert_eq!(&framed[body_start..total], body.as_bytes());
        }
        other => panic!("expected a whole message, got {:?}", other),
    }
}

#[test]
fn decode_with_trailing_bytes_and_other_headers() {
    let mut buf = b"Content-Type: application/json\r\ncontent-length:  2\r\n\r\n{}".to_vec();
    let first_len = buf.len();
    buf.extend_from_slice(b"Content-Length: 5\r\n");
    assert_eq!(decode_frame(&buf), Frame::Complete { body_start: first_len - 2, total: first_len });
}

#[test]
fn decode_needs_header_end_and_length() {
    assert_eq!(decode_frame(b"Content-Length: 2\r\n{}"), Frame::NoMessage);
    assert_eq!(decode_frame(b"X-Other: 1\r\n\r\n{}"), Frame::NoMessage);
    assert_eq!(decode_frame(b"Content-Length: two\r\n\r\n{}"), Frame::NoMessage);
    assert_eq!(decode_frame(&[0xff, 0xfe]), Frame::NoMessage);
}

#[test]
fn decode_multibyte_body() {
    let body = "{\"s\":\"é\"}";
    let framed = frame_message(body);
    assert_eq!(decode_frame(&framed), Frame::Complete { body_start: framed.len() - body.len(), total: framed.len() });
    // A length that ends inside the two-byte char cannot be cut there.
    let bad = format!("Content-Length: {}\r\n\r\n{}", 7, body).into_bytes();
    assert_eq!(decode_frame(&bad), Frame::Malformed);
}

#[test]
fn parse_numbers() {
    let p = |s: &str| parse_usize(&s.chars().collect::<Vec<char>>());
    assert_eq!(p("42"), Some(42));
    assert_eq!(p("+7"), Some(7));
    assert_eq!(p("+"), None);
    assert_eq!(p(""), None);
    assert_eq!(p("-1"), None);
    assert_eq!(p("1 2"), None);
    assert_eq!(p("99999999999999999999999999"), None);
}

#[test]
fn header_lines_from_a_stream() {
    assert_eq!(read_header_line("Content-Length: 12\r\n", None), HeaderLine::Field(Some(12)));
    assert_eq!(read_header_line("\r\n", Some(12)), HeaderLine::End);
    assert_eq!(read_header_line("Content-Type: x\r\n", Some(3)), HeaderLine::Field(Some(3)));
    assert_eq!(read_header_line("content-length: 12\r\n", None), HeaderLine::Field(None));
    assert_eq!(read_header_line("Content-Length: oops\r\n", Some(4)), HeaderLine::Field(Some(4)));
}

#[test]
fn message_kinds() {
    assert_eq!(message_kind(true, false), MessageKind::Response);
    assert_eq!(message_kind(false, true), MessageKind::Notification);
    assert_eq!(message_kind(true, true), MessageKind::Notification);
    assert_eq!(message_kind(false, false), MessageKind::Notification);
}

#[test]
fn server_config_holds_command() {
    let config = LspServerConfig {
        language_id: "kotlin".into(),
        command: "kotlin-language-server".into(),
        args: vec![],
    };
    assert_eq!(config.clone().command, "kotlin-language-server");
}

use kode::lsp::diagnostics::{Diagnostic, DiagnosticStore};
use kode::lsp::hover::{extract_hover_contents, HoverContents, MarkedString};
use kode::lsp::symbols::{
    flatten_symbols, DocumentSymbol, DocumentSymbolResponse, LspPosition, LspRange,
    SymbolInformation,
};

fn range(line: u32) -> LspRange {
    LspRange {
        start: LspPosition { line, character: 0 },
        end: LspPosition { line, character: 4 },
    }
}

#[test]
fn extract_markup_content() {
    let contents = HoverContents::Markup("**fun** main()".into());
    assert_eq!(extract_hover_contents(&contents), "**fun** main()");
}

#[test]
fn extract_scalar_string() {
    let contents = HoverContents::Scalar(MarkedString::String("hello".into()));
    assert_eq!(extract_hover_contents(&contents), "hello");
}

#[test]
fn extract_code_and_lists() {
    let code = MarkedString::LanguageString { language: "kotlin".into(), value: "fun f()".into() };
    assert_eq!(extract_hover_contents(&HoverContents::Scalar(code.clone())), "```kotlin\nfun f()\n```");
    let list = HoverContents::Array(vec![MarkedString::String("a".into()), code]);
    assert_eq!(extract_hover_contents(&list), "a\n\n```kotlin\nfun f()\n```");
    assert_eq!(extract_hover_contents(&HoverContents::Array(vec![])), "");
}

fn symbol(name: &str, children: Option<Vec<DocumentSymbol>>) -> DocumentSymbol {
    DocumentSymbol { name: name.into(), detail: None, kind: 5, range: range(0), children }
}

#[test]
fn flatten_nested_symbols() {
    let response = DocumentSymbolResponse::Nested(vec![symbol(
        "MyClass",
        Some(vec![symbol("myMethod", None)]),
    )]);
    let flat = flatten_symbols(response);
    assert_eq!(flat.len(), 2);
    assert_eq!(flat[0].name, "MyClass");
    assert_eq!(flat[1].name, "myMethod");
}

#[test]
fn flatten_preorder_and_flat() {
    let response = DocumentSymbolResponse::Nested(vec![
        symbol("A", Some(vec![symbol("A1", Some(vec![symbol("A1x", None)])), symbol("A2", None)])),
        symbol("B", Some(vec![])),
    ]);
    let names: Vec<String> = flatten_symbols(response).into_iter().map(|s| s.name).collect();
    assert_eq!(names, vec!["A", "A1", "A1x", "A2", "B"]);
    let flat = DocumentSymbolResponse::Flat(vec![SymbolInformation { name: "x".into(), kind: 13, range: range(3) }]);
    let out = flatten_symbols(flat);
    assert_eq!(out.len(), 1);
    assert_eq!(out[0].kind, 13);
    assert_eq!(out[0].range, range(3));
    assert!(out[0].detail.is_none());
}

fn diag(severity: Option<i32>, message: &str) -> Diagnostic {
    Diagnostic { range: range(0), severity, message: message.into(), source: None }
}

#[test]
fn store_and_retrieve() {
    let mut store = DiagnosticStore::new();
    let uri = store.publish(
        "file:///test.kt".into(),
        vec![diag(Some(1), "error here"), diag(Some(2), "warning here")],
    );
    assert_eq!(uri, "file:///test.kt");
    assert_eq!(store.get(&uri).len(), 2);
    assert_eq!(store.error_count(&uri), 1);
    assert_eq!(store.warning_count(&uri), 1);
}

#[test]
fn clear_diagnostics() {
    let mut store = DiagnosticStore::default();
    store.publish("file:///test.kt".into(), vec![diag(None, "err")]);
    store.clear("file:///test.kt");
    assert!(store.get("file:///test.kt").is_empty());
}

#[test]
fn republish_replaces() {
    let mut store = DiagnosticStore::new();
    store.publish("file:///a.kt".into(), vec![diag(Some(1), "x"), diag(Some(1), "y")]);
    store.publish("file:///b.kt".into(), vec![diag(Some(2), "w")]);
    store.publish("file:///a.kt".into(), vec![diag(Some(2), "z")]);
    assert_eq!(store.error_count("file:///a.kt"), 0);
    assert_eq!(store.warning_count("file:///a.kt"), 1);
    assert_eq!(store.get("file:///b.kt")[0].message, "w");
    let mut uris = store.uris();
    uris.sort();
    assert_eq!(uris, vec!["file:///a.kt", "file:///b.kt"]);
    store.clear("file:///nothing");
    assert_eq!(store.uris().len(), 2);
}

#[test]
fn default_has_kotlin() {
    let manager = LspManager::new();
    assert!(manager.has_config("kotlin"));
    assert!(!manager.has_config("java"));
}

#[test]
fn register_custom_server() {
    let mut manager = LspManager::new();
    manager.register(LspServerConfig {
        language_id: "rust".into(),
        command: "rust-analyzer".into(),
        args: vec![],
    });
    assert!(manager.has_config("rust"));
}

#[test]
fn register_replaces_config() {
    let mut manager = LspManager::new();
    manager.register(LspServerConfig {
        language_id: "kotlin".into(),
        command: "kls".into(),
        args: vec!["--stdio".into()],
    });
    let c = manager.config("kotlin").unwrap();
    assert_eq!(c.command, "kls");
    assert_eq!(c.args, vec!["--stdio".to_string()]);
    assert!(manager.config("java").is_none());
}

#[test]
fn request_steps() {
    assert_eq!(request_step(3, Incoming::Response { id: Some(3), is_error: false }), RequestStep::Reply);
    assert_eq!(request_step(3, Incoming::Response { id: Some(3), is_error: true }), RequestStep::Failed);
    assert_eq!(request_step(3, Incoming::Response { id: Some(2), is_error: true }), RequestStep::Forward(2));
    assert_eq!(request_step(3, Incoming::Response { id: None, is_error: false }), RequestStep::Forward(-1));
    assert_eq!(request_step(3, Incoming::Notification), RequestStep::HandleNotification);
    assert_eq!(request_step(3, Incoming::Disconnected), RequestStep::Aborted);
}

#[test]
fn request_ids_count_up() {
    let mut ids = RequestIds::new();
    assert_eq!(ids.take(), 1);
    assert_eq!(ids.take(), 2);
    assert!(ids.can_take());
}
