use vstd::prelude::*;

use crate::editor::buffer::{
    apply_op, law_reverse_undoes, line_len_of, op_applies, unapply_applies, unapply_op, Buffer,
};
use crate::editor::cursor::{Cursor, CursorSet};
use crate::editor::history::{
    committed, redo_target, redone, undo_target, undone, EditOperation, History, HistoryView,
};
use crate::geometry::Position;
use crate::editor::rope::{line_of, rope_line_count, rope_line_start};
use crate::editor::selection::{origin_caret, SelectionSet};
use crate::path::{path_extension, path_extension_of, path_file_name, path_file_name_of};
use crate::text::{chars_of, string_from_chars};

verus! {

/// The text after applying the operations in order.
pub open spec fn apply_all(t: Seq<char>, ops: Seq<EditOperation>) -> Seq<char>
    decreases ops.len(),
{
    if ops.len() == 0 {
        t
    } else {
        apply_all(apply_op(t, ops[0]), ops.drop_first())
    }
}

/// Each operation, in order, applies within the bounds of the text so far.
pub open spec fn apply_all_ok(t: Seq<char>, ops: Seq<EditOperation>) -> bool
    decreases ops.len(),
{
    ops.len() == 0 || (op_applies(t, ops[0]) && apply_all_ok(apply_op(t, ops[0]), ops.drop_first()))
}

/// The text after reversing the operations, last one first.
pub open spec fn unapply_all(t: Seq<char>, ops: Seq<EditOperation>) -> Seq<char>
    decreases ops.len(),
{
    if ops.len() == 0 {
        t
    } else {
        unapply_all(unapply_op(t, ops.last()), ops.drop_last())
    }
}

/// Each reversal, last operation first, applies within the bounds.
pub open spec fn unapply_all_ok(t: Seq<char>, ops: Seq<EditOperation>) -> bool
    decreases ops.len(),
{
    ops.len() == 0 || (unapply_applies(t, ops.last()) && unapply_all_ok(
        unapply_op(t, ops.last()),
        ops.drop_last(),
    ))
}

/// The operation records an edit of `t` that its reverse takes back: it
/// fits the text, and a delete's text is what stood at its position.
pub open spec fn reversible(t: Seq<char>, op: EditOperation) -> bool {
    &&& op_applies(t, op)
    &&& match op {
        EditOperation::Insert { .. } => true,
        EditOperation::Delete { pos, text } => text@ == t.subrange(pos as int, pos + text@.len()),
    }
}

/// Every operation, in order, is reversible on the text it meets.
pub open spec fn reversible_all(t: Seq<char>, ops: Seq<EditOperation>) -> bool
    decreases ops.len(),
{
    ops.len() == 0 || (reversible(t, ops[0]) && reversible_all(apply_op(t, ops[0]), ops.drop_first()))
}

/// The operations of the transaction being recorded, if any.
pub open spec fn open_ops(h: HistoryView) -> Seq<EditOperation> {
    match h.current {
        Some(t) => t,
        None => Seq::empty(),
    }
}

/// The operation inserts `text` at `pos`.
pub open spec fn is_insert_of(op: EditOperation, pos: int, text: Seq<char>) -> bool {
    op matches EditOperation::Insert { pos: p, text: t } && p == pos && t@ == text
}

/// The operation deletes `text` at `pos`.
pub open spec fn is_delete_of(op: EditOperation, pos: int, text: Seq<char>) -> bool {
    op matches EditOperation::Delete { pos: p, text: t } && p == pos && t@ == text
}

/// A document ties together all editing state for a single file.
#[derive(Debug)]
pub struct Document {
    pub buffer: Buffer,
    pub cursors: CursorSet,
    pub selections: SelectionSet,
    pub history: History,
    pub file_path: Option<String>,
    pub language: Option<String>,
    pub scroll_offset: usize,
}

/// The language of a file extension.
pub open spec fn language_of_extension(ext: Seq<char>) -> Seq<char> {
    if ext == "kt"@ || ext == "kts"@ {
        "kotlin"@
    } else if ext == "java"@ {
        "java"@
    } else if ext == "rs"@ {
        "rust"@
    } else if ext == "py"@ {
        "python"@
    } else if ext == "js"@ {
        "javascript"@
    } else if ext == "ts"@ {
        "typescript"@
    } else if ext == "tsx"@ {
        "typescriptreact"@
    } else if ext == "yml"@ || ext == "yaml"@ {
        "yaml"@
    } else if ext == "toml"@ {
        "toml"@
    } else if ext == "json"@ {
        "json"@
    } else if ext == "md"@ {
        "markdown"@
    } else if ext == "groovy"@ || ext == "gradle"@ {
        "groovy"@
    } else {
        "plaintext"@
    }
}

fn is(s: &String, lit: &str) -> (r: bool)
    ensures
        r == (s@ == lit@),
{
    let l = String::from_str(lit);
    *s == l
}

/// The language of a path, found from its extension.
pub fn detect_language(path: &str) -> (r: Option<String>)
    ensures
        match r {
            Some(l) => path_extension_of(path@) matches Some(e) && l@ == language_of_extension(e),
            None => path_extension_of(path@) is None,
        },
{
    match path_extension(path) {
        None => None,
        Some(ext) => {
            let lang = if is(&ext, "kt") || is(&ext, "kts") {
                "kotlin"
            } else if is(&ext, "java") {
                "java"
            } else if is(&ext, "rs") {
                "rust"
            } else if is(&ext, "py") {
                "python"
            } else if is(&ext, "js") {
                "javascript"
            } else if is(&ext, "ts") {
                "typescript"
            } else if is(&ext, "tsx") {
                "typescriptreact"
            } else if is(&ext, "yml") || is(&ext, "yaml") {
                "yaml"
            } else if is(&ext, "toml") {
                "toml"
            } else if is(&ext, "json") {
                "json"
            } else if is(&ext, "md") {
                "markdown"
            } else if is(&ext, "groovy") || is(&ext, "gradle") {
                "groovy"
            } else {
                "plaintext"
            };
            Some(String::from_str(lang))
        },
    }
}

/// The change in length an operation makes.
pub open spec fn op_delta(op: EditOperation) -> int {
    match op {
        EditOperation::Insert { text, .. } => text@.len() as int,
        EditOperation::Delete { text, .. } => -(text@.len() as int),
    }
}

/// The operation applies to a text of `n` chars.
pub open spec fn applies_len(n: int, op: EditOperation) -> bool {
    match op {
        EditOperation::Insert { pos, .. } => pos <= n,
        EditOperation::Delete { pos, text } => pos + text@.len() <= n,
    }
}

/// The reverse of the operation applies to a text of `n` chars.
pub open spec fn unapplies_len(n: int, op: EditOperation) -> bool {
    match op {
        EditOperation::Insert { pos, text } => pos + text@.len() <= n,
        EditOperation::Delete { pos, .. } => pos <= n,
    }
}

/// Applying the operations in order stays in bounds of a text of `n`
/// chars (only the lengths matter).
pub open spec fn apply_fits(n: int, ops: Seq<EditOperation>) -> bool
    decreases ops.len(),
{
    ops.len() == 0 || (applies_len(n, ops[0]) && apply_fits(n + op_delta(ops[0]), ops.drop_first()))
}

/// Reversing the operations, last first, stays in bounds of a text of `n`
/// chars.
pub open spec fn unapply_fits(n: int, ops: Seq<EditOperation>) -> bool
    decreases ops.len(),
{
    ops.len() == 0 || (unapplies_len(n, ops.last()) && unapply_fits(
        n - op_delta(ops.last()),
        ops.drop_last(),
    ))
}

proof fn lemma_apply_fits(t: Seq<char>, ops: Seq<EditOperation>)
    ensures
        apply_all_ok(t, ops) == apply_fits(t.len() as int, ops),
    decreases ops.len(),
{
    if ops.len() > 0 {
        let op = ops[0];
        if op_applies(t, op) {
            assert(apply_op(t, op).len() == t.len() + op_delta(op));
        }
        lemma_apply_fits(apply_op(t, op), ops.drop_first());
    }
}

proof fn lemma_unapply_fits(t: Seq<char>, ops: Seq<EditOperation>)
    ensures
        unapply_all_ok(t, ops) == unapply_fits(t.len() as int, ops),
    decreases ops.len(),
{
    if ops.len() > 0 {
        let op = ops.last();
        if unapply_applies(t, op) {
            assert(unapply_op(t, op).len() == t.len() - op_delta(op));
        }
        lemma_unapply_fits(unapply_op(t, op), ops.drop_last());
    }
}

fn char_len(s: &String) -> (n: usize)
    ensures
        n == s@.len(),
{
    chars_of(s.as_str()).len()
}

/// Whether reversing the operations, last first, stays in bounds of a
/// text of `n` chars.
fn reverse_fits(n: usize, ops: &[EditOperation]) -> (r: bool)
    ensures
        r == unapply_fits(n as int, ops@),
{
    let mut cur: u128 = n as u128;
    let mut i: usize = ops.len();
    assert(ops@.take(i as int) =~= ops@);
    while i > 0
        invariant
            i <= ops@.len(),
            ops@.len() <= usize::MAX,
            unapply_fits(n as int, ops@) == unapply_fits(cur as int, ops@.take(i as int)),
            cur <= n + (ops@.len() - i) * (usize::MAX as int),
        decreases i,
    {
        assert(ops@.take(i as int).drop_last() =~= ops@.take(i - 1));
        assert(ops@.take(i as int).last() == ops@[i - 1]);
        proof {
            let k = ops@.len() - i;
            assert(k + 1 <= ops@.len());
            assert((k + 1) * (usize::MAX as int) <= (usize::MAX as int) * (usize::MAX as int))
                by (nonlinear_arith)
                requires
                    k + 1 <= usize::MAX,
            ;
            assert((usize::MAX as int) * (usize::MAX as int) + (usize::MAX as int) < u128::MAX)
                by (nonlinear_arith);
            assert(k * (usize::MAX as int) + (usize::MAX as int) == (k + 1) * (usize::MAX as int))
                by (nonlinear_arith);
        }
        match &ops[i - 1] {
            EditOperation::Insert { pos, text } => {
                let l = char_len(text);
                if (*pos as u128) + (l as u128) > cur {
                    return false;
                }
                cur = cur - (l as u128);
            },
            EditOperation::Delete { pos, text } => {
                if (*pos as u128) > cur {
                    return false;
                }
                let l = char_len(text);
                cur = cur + (l as u128);
            },
        }
        i = i - 1;
    }
    true
}

/// Whether applying the operations in order stays in bounds of a text of
/// `n` chars.
fn forward_fits(n: usize, ops: &[EditOperation]) -> (r: bool)
    ensures
        r == apply_fits(n as int, ops@),
{
    let mut cur: u128 = n as u128;
    let mut i: usize = 0;
    assert(ops@.skip(0) =~= ops@);
    while i < ops.len()
        invariant
            i <= ops@.len(),
            apply_fits(n as int, ops@) == apply_fits(cur as int, ops@.skip(i as int)),
            cur <= n + i * (usize::MAX as int),
        decreases ops@.len() - i,
    {
        assert(ops@.skip(i as int).drop_first() =~= ops@.skip(i + 1));
        assert(ops@.skip(i as int)[0] == ops@[i as int]);
        proof {
            assert((i + 1) * (usize::MAX as int) <= (usize::MAX as int) * (usize::MAX as int))
                by (nonlinear_arith)
                requires
                    i + 1 <= usize::MAX,
            ;
            assert((usize::MAX as int) * (usize::MAX as int) + (usize::MAX as int) < u128::MAX)
                by (nonlinear_arith);
            assert(i * (usize::MAX as int) + (usize::MAX as int) == (i + 1) * (usize::MAX as int))
                by (nonlinear_arith);
        }
        match &ops[i] {
            EditOperation::Insert { pos, text } => {
                if (*pos as u128) > cur {
                    return false;
                }
                let l = char_len(text);
                cur = cur + (l as u128);
            },
            EditOperation::Delete { pos, text } => {
                let l = char_len(text);
                if (*pos as u128) + (l as u128) > cur {
                    return false;
                }
                cur = cur - (l as u128);
            },
        }
        i = i + 1;
    }
    true
}

/// The parts an edit at the cursor leaves alone: the selections, the path,
/// the language and the scroll offset.
pub open spec fn same_setting(d: Document, e: Document) -> bool {
    &&& e.selections == d.selections
    &&& e.file_path == d.file_path
    &&& e.language == d.language
    &&& e.scroll_offset == d.scroll_offset
}

/// The cursors of `d` with the primary one moved to `p`, its sticky column
/// set to `p`'s column.
pub open spec fn primary_moved(d: Document, p: Position) -> Seq<Cursor> {
    d.cursors@.update(d.cursors.primary_index() as int, Cursor { position: p, sticky_col: p.col })
}

/// What typing `ch` at the primary cursor of `d` makes of it (`e`): the
/// edit is recorded in the open transaction and the cursor moves past the
/// char (to the start of the next line for a newline).
pub open spec fn after_insert_char(d: Document, e: Document, ch: char) -> bool {
    &&& e.history@.current matches Some(t) && t.len() > 0 && t.drop_last() == open_ops(d.history@)
        && is_insert_of(t.last(), d.spec_cursor_char_idx(), seq![ch])
    &&& e.buffer@ == apply_op(d.buffer@, e.history@.current->0.last())
    &&& e.history@.undo == d.history@.undo
    &&& e.history@.redo == d.history@.redo
    &&& e.cursors.wf()
    &&& e.cursors.primary_index() == d.cursors.primary_index()
    &&& e.cursors@.len() == d.cursors@.len()
    &&& e.primary_position() == if ch == '\n' {
        Position { line: (d.primary_position().line + 1) as usize, col: 0 }
    } else {
        Position { line: d.primary_position().line, col: (d.primary_position().col + 1) as usize }
    }
    &&& e.cursors@ == primary_moved(d, e.primary_position())
    &&& same_setting(d, e)
}

/// What inserting `text` at the primary cursor of `d` makes of it (`e`):
/// the edit is recorded in the open transaction; the cursors stay.
pub open spec fn after_insert_text(d: Document, e: Document, text: Seq<char>) -> bool {
    &&& e.history@.current matches Some(t) && t.len() > 0 && t.drop_last() == open_ops(d.history@)
        && is_insert_of(t.last(), d.spec_cursor_char_idx(), text)
    &&& e.buffer@ == apply_op(d.buffer@, e.history@.current->0.last())
    &&& e.history@.undo == d.history@.undo
    &&& e.history@.redo == d.history@.redo
    &&& e.cursors == d.cursors
    &&& same_setting(d, e)
}

/// What deleting the char before the primary cursor of `d` makes of it
/// (`e`): nothing at the start of the text; else the char goes, the edit is
/// recorded, and the cursor moves back one column or to the end of the
/// previous line.
pub open spec fn after_delete_backward(d: Document, e: Document) -> bool {
    &&& d.spec_cursor_char_idx() == 0 ==> e.buffer@ == d.buffer@ && e.history@ == d.history@
        && e.cursors == d.cursors
    &&& d.spec_cursor_char_idx() > 0 ==> {
        let pos = d.spec_cursor_char_idx();
        let p = d.primary_position();
        &&& e.buffer@ == d.buffer@.take(pos - 1) + d.buffer@.skip(pos)
        &&& e.history@.current matches Some(t) && t.len() > 0 && t.drop_last() == open_ops(
            d.history@,
        ) && is_delete_of(t.last(), pos - 1, d.buffer@.subrange(pos - 1, pos))
        &&& e.history@.undo == d.history@.undo
        &&& e.history@.redo == d.history@.redo
        &&& e.cursors.wf()
        &&& e.cursors@.len() == d.cursors@.len()
        &&& e.cursors.primary_index() == d.cursors.primary_index()
        &&& e.primary_position() == position_after_backspace(p, e.buffer@)
        &&& e.cursors@ == if p.col == 0 && p.line == 0 {
            d.cursors@
        } else {
            primary_moved(d, e.primary_position())
        }
    }
    &&& same_setting(d, e)
}

/// What deleting the char under the primary cursor of `d` makes of it
/// (`e`): nothing at the end of the text; else the char goes and the edit
/// is recorded. The cursors stay.
pub open spec fn after_delete_forward(d: Document, e: Document) -> bool {
    &&& d.spec_cursor_char_idx() >= d.buffer@.len() ==> e.buffer@ == d.buffer@ && e.history@
        == d.history@
    &&& d.spec_cursor_char_idx() < d.buffer@.len() ==> {
        let pos = d.spec_cursor_char_idx();
        &&& e.buffer@ == d.buffer@.take(pos) + d.buffer@.skip(pos + 1)
        &&& e.history@.current matches Some(t) && t.len() > 0 && t.drop_last() == open_ops(
            d.history@,
        ) && is_delete_of(t.last(), pos, d.buffer@.subrange(pos, pos + 1))
        &&& e.history@.undo == d.history@.undo
        &&& e.history@.redo == d.history@.redo
    }
    &&& e.cursors == d.cursors
    &&& same_setting(d, e)
}

/// An edit at the primary cursor of a document.
#[derive(Debug, Clone, PartialEq, Eq)]
pub enum CursorEdit {
    InsertChar(char),
    InsertText(String),
    DeleteBackward,
    DeleteForward,
}

impl Document {
    /// The char index of the primary cursor: the start of its line plus its
    /// column.
    pub open spec fn spec_cursor_char_idx(&self) -> int {
        rope_line_start(self.buffer@, self.cursors.spec_primary().position.line as nat)
            + self.cursors.spec_primary().position.col
    }

    /// The primary cursor lies within the text, so edits at it are in bounds.
    pub open spec fn cursor_in_text(&self) -> bool {
        &&& self.cursors.wf()
        &&& self.cursors.spec_primary().position.line <= rope_line_count(self.buffer@)
        &&& self.spec_cursor_char_idx() <= self.buffer@.len()
    }

    pub open spec fn primary_position(&self) -> Position {
        self.cursors.spec_primary().position
    }

    /// An empty, untitled document.
    pub fn new() -> (d: Document)
        ensures
            d.buffer@ == Seq::<char>::empty(),
            !d.buffer.is_modified_flag(),
            d.cursors.wf(),
            d.cursors@ == seq![Cursor { position: Position { line: 0, col: 0 }, sticky_col: 0 }],
            d.cursors.primary_index() == 0,
            d.cursors.spec_primary().position.line == 0,
            d.cursors.spec_primary().position.col == 0,
            d.selections.wf(),
            d.selections@ == seq![origin_caret()],
            d.selections.primary_index() == 0,
            d.history@.undo.len() == 0,
            d.history@.redo.len() == 0,
            d.history@.current is None,
            d.file_path is None,
            d.language is None,
            d.scroll_offset == 0,
    {
        Document {
            buffer: Buffer::new(),
            cursors: CursorSet::new(),
            selections: SelectionSet::new(),
            history: History::new(),
            file_path: None,
            language: None,
            scroll_offset: 0,
        }
    }

    /// A document for a file whose contents have been read: the text, the
    /// path, and the language of the path's extension.
    pub fn from_contents(path: String, contents: &str) -> (d: Document)
        ensures
            d.buffer@ == contents@,
            d.cursors.wf(),
            d.cursors.spec_primary().position.line == 0,
            d.cursors.spec_primary().position.col == 0,
            d.selections.wf(),
            d.history@.undo.len() == 0,
            d.history@.redo.len() == 0,
            d.history@.current is None,
            d.file_path == Some(path),
            match d.language {
                Some(l) => path_extension_of(path@) matches Some(e) && l@ == language_of_extension(e),
                None => path_extension_of(path@) is None,
            },
            d.scroll_offset == 0,
    {
        let language = detect_language(path.as_str());
        Document {
            buffer: Buffer::from_str(contents),
            cursors: CursorSet::new(),
            selections: SelectionSet::new(),
            history: History::new(),
            file_path: Some(path),
            language,
            scroll_offset: 0,
        }
    }

    fn cursor_to_char_idx(&self) -> (idx: usize)
        requires
            self.cursor_in_text(),
        ensures
            idx == self.spec_cursor_char_idx(),
    {
        let _len = self.buffer.char_count();
        let cursor = self.cursors.primary();
        let line_start = self.buffer.line_to_char(cursor.line());
        line_start + cursor.col()
    }

    /// Type a char at the primary cursor and record the edit; the cursor
    /// moves past it (to the start of the next line for a newline).
    pub fn insert_char(&mut self, ch: char)
        requires
            old(self).cursor_in_text(),
            old(self).buffer@.len() < usize::MAX,
            old(self).primary_position().line < usize::MAX,
        ensures
            after_insert_char(*old(self), *final(self), ch),
    {
        let pos = self.cursor_to_char_idx();
        let mut v: Vec<char> = Vec::new();
        v.push(ch);
        let s = string_from_chars(&v);
        let op = self.buffer.insert(pos, s.as_str());
        self.history.record(op);
        assert(self.history@.current matches Some(t) && t.len() > 0 && t.drop_last() == open_ops(
            old(self).history@,
        ));
        assert(self.history@.undo == old(self).history@.undo);
        assert(self.history@.redo == old(self).history@.redo);
        let line = self.cursors.primary().line();
        let col = self.cursors.primary().col();
        let c = self.cursors.primary_mut();
        if ch == '\n' {
            c.move_to(line + 1, 0);
        } else {
            c.move_to(line, col + 1);
        }
    }

    /// Insert text at the primary cursor and record the edit; the cursor
    /// stays where it is.
    pub fn insert_text(&mut self, text: &str)
        requires
            old(self).cursor_in_text(),
        ensures
            after_insert_text(*old(self), *final(self), text@),
    {
        let pos = self.cursor_to_char_idx();
        let op = self.buffer.insert(pos, text);
        self.history.record(op);
        assert(self.history@.current matches Some(t) && t.len() > 0 && t.drop_last() == open_ops(
            old(self).history@,
        ));
        assert(self.history@.undo == old(self).history@.undo);
        assert(self.history@.redo == old(self).history@.redo);
    }

    /// Delete the char before the primary cursor and record the edit; the
    /// cursor moves back one column, or to the end of the previous line. At
    /// the start of the text nothing happens.
    pub fn delete_backward(&mut self)
        requires
            old(self).cursor_in_text(),
        ensures
            after_delete_backward(*old(self), *final(self)),
    {
        let pos = self.cursor_to_char_idx();
        if pos == 0 {
            return;
        }
        let op = self.buffer.delete(pos - 1..pos);
        self.history.record(op);
        assert(self.history@.current matches Some(t) && t.len() > 0 && t.drop_last() == open_ops(
            old(self).history@,
        ));
        assert(self.history@.undo == old(self).history@.undo);
        assert(self.history@.redo == old(self).history@.redo);
        let line = self.cursors.primary().line();
        let col = self.cursors.primary().col();
        if col > 0 {
            let c = self.cursors.primary_mut();
            c.move_to(line, col - 1);
        } else if line > 0 {
            let len = self.buffer.line_len(line - 1);
            let c = self.cursors.primary_mut();
            c.move_to(line - 1, len);
        }
    }

    /// Delete the char under the primary cursor and record the edit; at the
    /// end of the text nothing happens.
    pub fn delete_forward(&mut self)
        requires
            old(self).cursor_in_text(),
        ensures
            after_delete_forward(*old(self), *final(self)),
    {
        let pos = self.cursor_to_char_idx();
        if pos >= self.buffer.char_count() {
            return;
        }
        let op = self.buffer.delete(pos..pos + 1);
        self.history.record(op);
        assert(self.history@.current matches Some(t) && t.len() > 0 && t.drop_last() == open_ops(
            old(self).history@,
        ));
        assert(self.history@.undo == old(self).history@.undo);
        assert(self.history@.redo == old(self).history@.redo);
    }

    /// Whether the primary cursor lies within the text, so that edits at it
    /// stay in bounds.
    pub fn cursor_fits(&self) -> (r: bool)
        ensures
            r == self.cursor_in_text(),
    {
        if !self.cursors.primary_in_range() {
            return false;
        }
        let c = self.cursors.primary();
        let line = c.line();
        if line > self.buffer.line_count() {
            return false;
        }
        let start = self.buffer.line_to_char(line);
        let len = self.buffer.char_count();
        c.col() <= len - start
    }

    /// Make an edit at the primary cursor, when the cursor lies within the
    /// text (and, to type a char, the text and the line number can grow);
    /// returns whether it was made. Otherwise the document is left as it is.
    pub fn edit_at_cursor(&mut self, edit: &CursorEdit) -> (done: bool)
        ensures
            done == (old(self).cursor_in_text() && (edit is InsertChar ==> old(self).buffer@.len()
                < usize::MAX && old(self).primary_position().line < usize::MAX)),
            !done ==> *final(self) == *old(self),
            done ==> match edit {
                CursorEdit::InsertChar(ch) => after_insert_char(*old(self), *final(self), *ch),
                CursorEdit::InsertText(t) => after_insert_text(*old(self), *final(self), t@),
                CursorEdit::DeleteBackward => after_delete_backward(*old(self), *final(self)),
                CursorEdit::DeleteForward => after_delete_forward(*old(self), *final(self)),
            },
    {
        if !self.cursor_fits() {
            return false;
        }
        match edit {
            CursorEdit::InsertChar(ch) => {
                if self.buffer.char_count() == usize::MAX || self.cursors.primary().line()
                    == usize::MAX {
                    return false;
                }
                self.insert_char(*ch);
            },
            CursorEdit::InsertText(t) => self.insert_text(t.as_str()),
            CursorEdit::DeleteBackward => self.delete_backward(),
            CursorEdit::DeleteForward => self.delete_forward(),
        }
        true
    }

    /// Close the transaction being recorded.
    pub fn commit_edit(&mut self)
        ensures
            final(self).history@ == committed(old(self).history@),
            final(self).buffer@ == old(self).buffer@,
    {
        self.history.commit();
    }

    /// Undo the last transaction: its operations are reversed, last first.
    pub fn undo(&mut self)
        requires
            undo_target(old(self).history@) matches Some(ops) ==> unapply_all_ok(
                old(self).buffer@,
                ops,
            ),
        ensures
            final(self).history@ == undone(old(self).history@),
            final(self).buffer@ == match undo_target(old(self).history@) {
                Some(ops) => unapply_all(old(self).buffer@, ops),
                None => old(self).buffer@,
            },
    {
        let ghost t0 = self.buffer@;
        let ops: Vec<EditOperation> = match self.history.undo() {
            Some(txn) => copy_ops(txn.operations()),
            None => Vec::new(),
        };
        assert(ops@ == match undo_target(old(self).history@) {
            Some(o) => o,
            None => Seq::<EditOperation>::empty(),
        });
        let mut i: usize = ops.len();
        assert(ops@.take(i as int) =~= ops@);
        while i > 0
            invariant
                i <= ops@.len(),
                unapply_all(self.buffer@, ops@.take(i as int)) == unapply_all(t0, ops@),
                unapply_all_ok(self.buffer@, ops@.take(i as int)),
                self.history@ == undone(old(self).history@),
            decreases i,
        {
            assert(ops@.take(i as int).last() == ops@[i - 1]);
            assert(ops@.take(i as int).drop_last() =~= ops@.take(i - 1));
            self.buffer.apply_reverse(&ops[i - 1]);
            i = i - 1;
        }
        assert(ops@.take(0) =~= Seq::<EditOperation>::empty());
    }

    /// Redo the last undone transaction: its operations are applied in order.
    pub fn redo(&mut self)
        requires
            redo_target(old(self).history@) matches Some(ops) ==> apply_all_ok(
                old(self).buffer@,
                ops,
            ),
        ensures
            final(self).history@ == redone(old(self).history@),
            final(self).buffer@ == match redo_target(old(self).history@) {
                Some(ops) => apply_all(old(self).buffer@, ops),
                None => old(self).buffer@,
            },
    {
        let ghost t0 = self.buffer@;
        let ops: Vec<EditOperation> = match self.history.redo() {
            Some(txn) => copy_ops(txn.operations()),
            None => Vec::new(),
        };
        assert(ops@ == match redo_target(old(self).history@) {
            Some(o) => o,
            None => Seq::<EditOperation>::empty(),
        });
        let mut i: usize = 0;
        assert(ops@.skip(0) =~= ops@);
        while i < ops.len()
            invariant
                i <= ops@.len(),
                apply_all(self.buffer@, ops@.skip(i as int)) == apply_all(t0, ops@),
                apply_all_ok(self.buffer@, ops@.skip(i as int)),
                self.history@ == redone(old(self).history@),
            decreases ops@.len() - i,
        {
            assert(ops@.skip(i as int)[0] == ops@[i as int]);
            assert(ops@.skip(i as int).drop_first() =~= ops@.skip(i + 1));
            self.buffer.apply(&ops[i]);
            i = i + 1;
        }
        assert(ops@.skip(i as int) =~= Seq::<EditOperation>::empty());
    }

    /// Undo the last transaction when its reversal fits the text; returns
    /// whether it did. Otherwise the document is left as it is.
    pub fn try_undo(&mut self) -> (done: bool)
        ensures
            done == (undo_target(old(self).history@) matches Some(ops) ==> unapply_all_ok(
                old(self).buffer@,
                ops,
            )),
            done ==> final(self).history@ == undone(old(self).history@),
            done ==> final(self).buffer@ == match undo_target(old(self).history@) {
                Some(ops) => unapply_all(old(self).buffer@, ops),
                None => old(self).buffer@,
            },
            !done ==> *final(self) == *old(self),
    {
        let fits = match self.history.undo_preview() {
            Some(t) => {
                proof {
                    lemma_unapply_fits(self.buffer@, t@);
                }
                reverse_fits(self.buffer.char_count(), t.operations())
            },
            None => true,
        };
        if !fits {
            return false;
        }
        self.undo();
        true
    }

    /// Redo the last undone transaction when it fits the text; returns
    /// whether it did. Otherwise the document is left as it is.
    pub fn try_redo(&mut self) -> (done: bool)
        ensures
            done == (redo_target(old(self).history@) matches Some(ops) ==> apply_all_ok(
                old(self).buffer@,
                ops,
            )),
            done ==> final(self).history@ == redone(old(self).history@),
            done ==> final(self).buffer@ == match redo_target(old(self).history@) {
                Some(ops) => apply_all(old(self).buffer@, ops),
                None => old(self).buffer@,
            },
            !done ==> *final(self) == *old(self),
    {
        let fits = match self.history.redo_preview() {
            Some(t) => {
                proof {
                    lemma_apply_fits(self.buffer@, t@);
                }
                forward_fits(self.buffer.char_count(), t.operations())
            },
            None => true,
        };
        if !fits {
            return false;
        }
        self.redo();
        true
    }

    pub fn scroll_offset(&self) -> (n: usize)
        ensures
            n == self.scroll_offset,
    {
        self.scroll_offset
    }

    pub fn set_scroll_offset(&mut self, offset: usize)
        ensures
            final(self).scroll_offset == offset,
            final(self).buffer@ == old(self).buffer@,
    {
        self.scroll_offset = offset;
    }

    /// The file name of the document's path, or `[untitled]`.
    pub fn title(&self) -> (t: String)
        ensures
            t@ == match self.file_path {
                Some(p) => match path_file_name_of(p@) {
                    Some(n) => n,
                    None => "[untitled]"@,
                },
                None => "[untitled]"@,
            },
    {
        match &self.file_path {
            Some(p) => match path_file_name(p.as_str()) {
                Some(n) => n,
                None => String::from_str("[untitled]"),
            },
            None => String::from_str("[untitled]"),
        }
    }

    pub fn is_modified(&self) -> (r: bool)
        ensures
            r == self.buffer.is_modified_flag(),
    {
        self.buffer.is_modified()
    }
}

impl Default for Document {
    fn default() -> (d: Document)
        ensures
            d.buffer@ == Seq::<char>::empty(),
            d.file_path is None,
    {
        Document::new()
    }
}

/// Where the cursor goes after deleting backward from `p`: one column left,
/// or from the start of a line to the end of the previous one (measured in
/// the text after the deletion).
pub open spec fn position_after_backspace(p: Position, t: Seq<char>) -> Position {
    if p.col > 0 {
        Position { line: p.line, col: (p.col - 1) as usize }
    } else if p.line > 0 {
        Position { line: (p.line - 1) as usize, col: spec_line_len(t, (p.line - 1) as nat) as usize }
    } else {
        p
    }
}

fn copy_op(op: &EditOperation) -> (r: EditOperation)
    ensures
        r == *op,
{
    match op {
        EditOperation::Insert { pos, text } => EditOperation::Insert { pos: *pos, text: text.clone() },
        EditOperation::Delete { pos, text } => EditOperation::Delete { pos: *pos, text: text.clone() },
    }
}

fn copy_ops(ops: &[EditOperation]) -> (r: Vec<EditOperation>)
    ensures
        r@ == ops@,
{
    let mut r: Vec<EditOperation> = Vec::new();
    let mut i: usize = 0;
    while i < ops.len()
        invariant
            i <= ops@.len(),
            r@ == ops@.take(i as int),
        decreases ops@.len() - i,
    {
        r.push(copy_op(&ops[i]));
        i = i + 1;
        assert(r@ =~= ops@.take(i as int));
    }
    assert(ops@.take(i as int) =~= ops@);
    r
}

/// The length of line `l` of `t` without its line break; 0 past the last line.
pub open spec fn spec_line_len(t: Seq<char>, l: nat) -> nat {
    if l < rope_line_count(t) {
        line_len_of(line_of(t, l))
    } else {
        0
    }
}

proof fn lemma_apply_all_push(t: Seq<char>, ops: Seq<EditOperation>, x: EditOperation)
    ensures
        apply_all(t, ops.push(x)) == apply_op(apply_all(t, ops), x),
        reversible_all(t, ops.push(x)) == (reversible_all(t, ops) && reversible(
            apply_all(t, ops),
            x,
        )),
    decreases ops.len(),
{
    let e = Seq::<EditOperation>::empty();
    if ops.len() == 0 {
        assert(ops.push(x).drop_first() =~= e);
        assert(ops.push(x)[0] == x);
        assert(apply_all(apply_op(t, x), e) == apply_op(t, x));
        assert(reversible_all(apply_op(t, x), e));
    } else {
        assert(ops.push(x).drop_first() =~= ops.drop_first().push(x));
        assert(ops.push(x)[0] == ops[0]);
        lemma_apply_all_push(apply_op(t, ops[0]), ops.drop_first(), x);
    }
}

/// Undo takes back what the recorded edits did: when each edit of a
/// transaction was reversible on the text it met (a delete records what it
/// removed), reversing the transaction's operations, last
/// first, stays in bounds and gives back the text from before them.
pub proof fn law_undo_restores(t: Seq<char>, ops: Seq<EditOperation>)
    requires
        reversible_all(t, ops),
    ensures
        unapply_all_ok(apply_all(t, ops), ops),
        unapply_all(apply_all(t, ops), ops) == t,
    decreases ops.len(),
{
    if ops.len() > 0 {
        let pre = ops.drop_last();
        let x = ops.last();
        assert(pre.push(x) =~= ops);
        lemma_apply_all_push(t, pre, x);
        let u = apply_all(t, pre);
        law_reverse_undoes(u, x);
        law_undo_restores(t, pre);
    }
}

} // verus!
