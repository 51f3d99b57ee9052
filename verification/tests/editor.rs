use kode::editor::buffer::Buffer;
use kode::editor::cursor::CursorSet;
use kode::editor::document::{detect_language, CursorEdit, Document};
use kode::editor::history::{EditOperation, History};
use kode::editor::search::{find_all, find_next};
use kode::editor::selection::{Selection, SelectionSet};
use kode::geometry::Position;

#[test]
fn insert_and_delete() {
    let mut buf = Buffer::from_str("hello world");
    buf.insert(5, " beautiful");
    assert_eq!(buf.text(), "hello beautiful world");

    buf.delete(5..15);
    assert_eq!(buf.text(), "hello world");
}

#[test]
fn line_operations() {
    let buf = Buffer::from_str("line one\nline two\nline three");
    assert_eq!(buf.line_count(), 3);
    assert_eq!(buf.line_to_string(0), Some("line one".into()));
    assert_eq!(buf.line_to_string(1), Some("line two".into()));
    assert_eq!(buf.line_len(0), 8);
}

#[test]
fn modified_tracking() {
    let mut buf = Buffer::new();
    assert!(!buf.is_modified());
    buf.insert(0, "hello");
    assert!(buf.is_modified());
    buf.set_unmodified();
    assert!(!buf.is_modified());
}

#[test]
fn buffer_lines_and_offsets() {
    let buf = Buffer::from_str("ab\ncde\n");
    assert_eq!(buf.line_count(), 3);
    assert_eq!(buf.char_count(), 7);
    assert_eq!(buf.line(1), Some("cde\n".to_string()));
    assert_eq!(buf.line(3), None);
    assert_eq!(buf.line_to_string(2), Some(String::new()));
    assert_eq!(buf.line_len(1), 3);
    assert_eq!(buf.line_len(9), 0);
    assert_eq!(buf.line_to_char(1), 3);
    assert_eq!(buf.char_to_line(4), 1);
}

#[test]
fn delete_reports_removed_text() {
    let mut buf = Buffer::from_str("abcdef");
    let op = buf.delete(1..4);
    assert_eq!(op, EditOperation::Delete { pos: 1, text: "bcd".into() });
    let op = buf.insert(2, "XY");
    assert_eq!(op, EditOperation::Insert { pos: 2, text: "XY".into() });
    assert_eq!(buf.text(), "aeXYf");
}

#[test]
fn apply_reverse_undoes_apply() {
    let mut buf = Buffer::from_str("hello");
    let op = EditOperation::Insert { pos: 5, text: " world".into() };
    buf.apply(&op);
    assert_eq!(buf.text(), "hello world");
    buf.apply_reverse(&op);
    assert_eq!(buf.text(), "hello");
    let del = EditOperation::Delete { pos: 0, text: "he".into() };
    buf.apply(&del);
    assert_eq!(buf.text(), "llo");
    buf.apply_reverse(&del);
    assert_eq!(buf.text(), "hello");
}

#[test]
fn basic_cursor() {
    let mut cs = CursorSet::new();
    assert_eq!(cs.primary().line(), 0);
    assert_eq!(cs.primary().col(), 0);

    cs.primary_mut().move_to(5, 10);
    assert_eq!(cs.primary().line(), 5);
    assert_eq!(cs.primary().col(), 10);
}

#[test]
fn multi_cursor() {
    let mut cs = CursorSet::new();
    cs.add_cursor(3, 5);
    cs.add_cursor(7, 2);
    assert_eq!(cs.cursor_count(), 3);

    cs.clear_secondary();
    assert_eq!(cs.cursor_count(), 1);
}

#[test]
fn sticky_column() {
    let mut cs = CursorSet::new();
    cs.primary_mut().move_to(2, 8);
    cs.primary_mut().move_to_keeping_sticky(3, 1);
    assert_eq!(cs.primary().col(), 1);
    assert_eq!(cs.primary().sticky_col, 8);
    assert_eq!(cs.all().len(), 1);
}

#[test]
fn insert_and_undo() {
    let mut doc = Document::new();
    doc.insert_char('h');
    doc.insert_char('i');
    doc.commit_edit();
    assert_eq!(doc.buffer.text(), "hi");

    doc.undo();
    assert_eq!(doc.buffer.text(), "");
}

#[test]
fn undo_then_redo_restores() {
    let mut doc = Document::new();
    doc.insert_text("abc");
    doc.commit_edit();
    doc.insert_char('\n');
    doc.commit_edit();
    assert_eq!(doc.buffer.text(), "\nabc");
    doc.undo();
    assert_eq!(doc.buffer.text(), "abc");
    doc.redo();
    assert_eq!(doc.buffer.text(), "\nabc");
    assert!(doc.is_modified());
}

#[test]
fn delete_backward_and_forward() {
    let mut doc = Document::from_contents("notes.txt".into(), "ab\ncd");
    doc.cursors.primary_mut().move_to(1, 0);
    doc.delete_backward();
    assert_eq!(doc.buffer.text(), "abcd");
    assert_eq!(doc.cursors.primary().line(), 0);
    assert_eq!(doc.cursors.primary().col(), 4);
    doc.delete_forward();
    assert_eq!(doc.buffer.text(), "abcd");
    doc.cursors.primary_mut().move_to(0, 2);
    doc.delete_forward();
    assert_eq!(doc.buffer.text(), "abd");
    doc.cursors.primary_mut().move_to(0, 0);
    doc.delete_backward();
    assert_eq!(doc.buffer.text(), "abd");
}

#[test]
fn detect_kotlin() {
    let lang = detect_language("Main.kt");
    assert_eq!(lang, Some("kotlin".into()));
}

#[test]
fn detect_other_languages() {
    assert_eq!(detect_language("a/b/lib.rs"), Some("rust".into()));
    assert_eq!(detect_language("build.gradle"), Some("groovy".into()));
    assert_eq!(detect_language("notes.txt"), Some("plaintext".into()));
    assert_eq!(detect_language("Makefile"), None);
}

#[test]
fn title_untitled() {
    let doc = Document::new();
    assert_eq!(doc.title(), "[untitled]");
}

#[test]
fn title_with_path() {
    let mut doc = Document::new();
    doc.file_path = Some("/some/path/Main.kt".into());
    assert_eq!(doc.title(), "Main.kt");
}

#[test]
fn document_from_contents() {
    let doc = Document::from_contents("src/App.java".into(), "class App {}");
    assert_eq!(doc.buffer.text(), "class App {}");
    assert_eq!(doc.language, Some("java".into()));
    assert_eq!(doc.title(), "App.java");
    assert!(!doc.is_modified());
    assert_eq!(doc.scroll_offset(), 0);
}

#[test]
fn scroll_offset_roundtrip() {
    let mut doc = Document::default();
    doc.set_scroll_offset(12);
    assert_eq!(doc.scroll_offset(), 12);
}

#[test]
fn undo_redo() {
    let mut history = History::new();

    history.record(EditOperation::Insert { pos: 0, text: "hello".into() });
    history.commit();

    history.record(EditOperation::Insert { pos: 5, text: " world".into() });
    history.commit();

    assert!(history.can_undo());
    let txn = history.undo().unwrap();
    assert_eq!(txn.operations().len(), 1);

    assert!(history.can_redo());
    let txn = history.redo().unwrap();
    assert_eq!(txn.operations().len(), 1);
}

#[test]
fn redo_cleared_on_new_edit() {
    let mut history = History::new();
    history.record(EditOperation::Insert { pos: 0, text: "a".into() });
    history.commit();

    history.undo();
    assert!(history.can_redo());

    history.record(EditOperation::Insert { pos: 0, text: "b".into() });
    history.commit();
    assert!(!history.can_redo());
}

#[test]
fn empty_history() {
    let mut history = History::default();
    assert!(!history.can_undo());
    assert!(history.undo().is_none());
    assert!(history.redo().is_none());
    history.record(EditOperation::Delete { pos: 0, text: "x".into() });
    assert!(history.can_undo());
}

#[test]
fn find_all_basic() {
    let buf = Buffer::from_str("hello world hello");
    let matches = find_all(&buf, "hello", true);
    assert_eq!(matches.len(), 2);
    assert_eq!(matches[0].start, Position::new(0, 0));
    assert_eq!(matches[1].start, Position::new(0, 12));
}

#[test]
fn find_case_insensitive() {
    let buf = Buffer::from_str("Hello HELLO hello");
    let matches = find_all(&buf, "hello", false);
    assert_eq!(matches.len(), 3);
}

#[test]
fn find_empty_pattern() {
    let buf = Buffer::from_str("hello");
    let matches = find_all(&buf, "", true);
    assert!(matches.is_empty());
}

#[test]
fn find_next_wrap() {
    let buf = Buffer::from_str("abc abc abc");
    let m = find_next(&buf, "abc", Position::new(0, 8), true);
    assert!(m.is_some());
    assert_eq!(m.unwrap().start, Position::new(0, 0));
}

#[test]
fn find_across_lines() {
    let buf = Buffer::from_str("ab\nab");
    let matches = find_all(&buf, "ab", true);
    assert_eq!(matches.len(), 2);
    assert_eq!(matches[1].start, Position::new(1, 0));
    assert_eq!(matches[1].end, Position::new(1, 2));
    assert_eq!(matches[1].char_range, 3..5);
    let next = find_next(&buf, "ab", Position::new(0, 0), true).unwrap();
    assert_eq!(next.start, Position::new(1, 0));
    assert!(find_next(&buf, "zz", Position::new(0, 0), true).is_none());
}

#[test]
fn selection_ordered() {
    let sel = Selection::new(Position::new(5, 3), Position::new(2, 1));
    let (start, end) = sel.ordered();
    assert_eq!(start, Position::new(2, 1));
    assert_eq!(end, Position::new(5, 3));
}

#[test]
fn selection_empty() {
    let sel = Selection::caret(Position::new(1, 1));
    assert!(sel.is_empty());
}

#[test]
fn selection_contains_and_set() {
    let sel = Selection::new(Position::new(2, 4), Position::new(0, 1));
    assert!(sel.contains(Position::new(1, 0)));
    assert!(sel.contains(Position::new(2, 4)));
    assert!(!sel.contains(Position::new(2, 5)));
    let mut set = SelectionSet::new();
    set.set_primary(sel);
    assert_eq!(*set.primary(), sel);
    set.clear();
    assert!(set.primary().is_empty());
    assert_eq!(set.all().len(), 1);
}

#[test]
fn reverse_of_non_ascii_insert_and_delete() {
    let mut b = Buffer::from_str("ab");
    let op = b.insert(0, "é✓");
    assert_eq!(b.text(), "é✓ab");
    b.apply_reverse(&op);
    assert_eq!(b.text(), "ab");
    b.apply(&op);
    assert_eq!(b.text(), "é✓ab");

    let mut c = Buffer::from_str("xé✓y");
    let del = c.delete(1..3);
    assert_eq!(c.text(), "xy");
    c.apply_reverse(&del);
    assert_eq!(c.text(), "xé✓y");
    c.apply(&del);
    assert_eq!(c.text(), "xy");
}

#[test]
fn undo_non_ascii_typing() {
    let mut d = Document::new();
    d.insert_char('é');
    d.insert_char('ß');
    d.commit_edit();
    assert_eq!(d.buffer.text(), "éß");
    d.undo();
    assert_eq!(d.buffer.text(), "");
    d.redo();
    assert_eq!(d.buffer.text(), "éß");
}

#[test]
fn find_all_ignoring_case_lowercases_whole_text() {
    let buf = Buffer::from_str("ΑΣ");
    assert!(find_all(&buf, "σ", false).is_empty());
    let buf = Buffer::from_str("Hello HELLO");
    let ms = find_all(&buf, "hello", false);
    assert_eq!(ms.len(), 2);
    assert_eq!(ms[1].char_range, 6..11);
    assert_eq!(ms[1].start, Position::new(0, 6));
}

#[test]
fn edits_at_cursor_are_checked() {
    let mut d = Document::new();
    assert!(d.cursor_fits());
    assert!(d.edit_at_cursor(&CursorEdit::InsertChar('é')));
    assert!(d.edit_at_cursor(&CursorEdit::InsertText("xy".to_string())));
    assert_eq!(d.buffer.text(), "éxy");
    assert!(d.edit_at_cursor(&CursorEdit::DeleteForward));
    assert_eq!(d.buffer.text(), "éy");
    assert!(d.edit_at_cursor(&CursorEdit::DeleteBackward));
    assert_eq!(d.buffer.text(), "y");
    d.cursors.primary_mut().move_to(5, 0);
    assert!(!d.cursor_fits());
    assert!(!d.edit_at_cursor(&CursorEdit::InsertChar('z')));
    assert_eq!(d.buffer.text(), "y");
}

#[test]
fn try_undo_and_redo_check_the_text() {
    let mut d = Document::new();
    d.insert_text("abc");
    d.commit_edit();
    assert!(d.try_undo());
    assert_eq!(d.buffer.text(), "");
    assert!(d.try_redo());
    assert_eq!(d.buffer.text(), "abc");
    d.buffer.delete(0..3);
    assert!(!d.try_undo());
    assert_eq!(d.buffer.text(), "");
    assert!(d.history.can_undo());
    assert!(d.try_redo());
}

#[test]
fn unicode_line_breaks() {
    let b = Buffer::from_str("a\r\nb\rc\u{2028}d\u{0B}e");
    assert_eq!(b.line_count(), 5);
    assert_eq!(b.line_to_char(0), 0);
    assert_eq!(b.line_to_char(1), 3);
    assert_eq!(b.line_to_char(2), 5);
    assert_eq!(b.char_to_line(2), 0);
    assert_eq!(b.char_to_line(3), 1);
    assert_eq!(b.line_to_char(5), b.char_count());
}
