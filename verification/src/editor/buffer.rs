use ropey::Rope;
use vstd::prelude::*;
use vstd::string::StringSliceAdditionalSpecFns;

use crate::editor::history::EditOperation;
use crate::editor::rope::{
    is_line_text, line_of, rope_char_line, rope_char_to_line, rope_from_str, rope_insert,
    rope_len_chars, rope_len_lines, rope_line_count, rope_line_start, rope_line_string,
    rope_line_to_char, rope_new, rope_remove, rope_slice_string, rope_text, rope_to_string,
};
use crate::text::{chars_of, string_from_chars};

verus! {

broadcast use vstd::utf8::is_ascii_chars_encode_utf8;

/// Rope-based text buffer optimized for large files.
#[derive(Debug, Clone)]
pub struct Buffer {
    rope: Rope,
    modified: bool,
}

impl View for Buffer {
    type V = Seq<char>;

    /// The chars of the buffer.
    closed spec fn view(&self) -> Seq<char> {
        rope_text(self.rope)
    }
}

/// The number of bytes of the UTF-8 encoding of some chars.
pub open spec fn utf8_len(s: Seq<char>) -> nat {
    vstd::utf8::encode_utf8(s).len()
}

/// `s` without its trailing `'\n'` chars.
pub open spec fn trim_newlines(s: Seq<char>) -> Seq<char>
    decreases s.len(),
{
    if s.len() > 0 && s.last() == '\n' {
        trim_newlines(s.drop_last())
    } else {
        s
    }
}

/// The length of a line without its final `'\n'`.
pub open spec fn line_len_of(line: Seq<char>) -> nat {
    if line.len() > 0 && line.last() == '\n' {
        (line.len() - 1) as nat
    } else {
        line.len()
    }
}

/// The operation can be applied to text `t` without leaving its bounds. A
/// delete spans as many chars as its text holds.
pub open spec fn op_applies(t: Seq<char>, op: EditOperation) -> bool {
    match op {
        EditOperation::Insert { pos, text } => pos <= t.len(),
        EditOperation::Delete { pos, text } => pos + text@.len() <= t.len(),
    }
}

/// The text after the operation.
pub open spec fn apply_op(t: Seq<char>, op: EditOperation) -> Seq<char> {
    match op {
        EditOperation::Insert { pos, text } => t.take(pos as int) + text@ + t.skip(pos as int),
        EditOperation::Delete { pos, text } => t.take(pos as int) + t.skip(pos + text@.len()),
    }
}

/// The reverse of the operation can be applied to `t`.
pub open spec fn unapply_applies(t: Seq<char>, op: EditOperation) -> bool {
    match op {
        EditOperation::Insert { pos, text } => pos + text@.len() <= t.len(),
        EditOperation::Delete { pos, text } => pos <= t.len(),
    }
}

/// The text after the reverse of the operation: the chars an insert put in
/// are removed, the chars a delete took out are re-inserted.
pub open spec fn unapply_op(t: Seq<char>, op: EditOperation) -> Seq<char> {
    match op {
        EditOperation::Insert { pos, text } => t.take(pos as int) + t.skip(pos + text@.len()),
        EditOperation::Delete { pos, text } => t.take(pos as int) + text@ + t.skip(pos as int),
    }
}

fn trim_trailing_newlines(v: &mut Vec<char>)
    ensures
        final(v)@ == trim_newlines(old(v)@),
{
    while v.len() > 0 && v[v.len() - 1] == '\n'
        invariant
            trim_newlines(v@) == trim_newlines(old(v)@),
        decreases v@.len(),
    {
        v.pop();
    }
}

impl Buffer {
    pub closed spec fn is_modified_flag(&self) -> bool {
        self.modified
    }

    pub fn new() -> (b: Buffer)
        ensures
            b@ == Seq::<char>::empty(),
            !b.is_modified_flag(),
    {
        Buffer { rope: rope_new(), modified: false }
    }

    pub fn from_str(text: &str) -> (b: Buffer)
        ensures
            b@ == text@,
            !b.is_modified_flag(),
    {
        Buffer { rope: rope_from_str(text), modified: false }
    }

    /// Insert `text` before char `char_idx`; returns the operation performed.
    pub fn insert(&mut self, char_idx: usize, text: &str) -> (op: EditOperation)
        requires
            char_idx <= old(self)@.len(),
        ensures
            final(self)@ == old(self)@.take(char_idx as int) + text@ + old(self)@.skip(
                char_idx as int,
            ),
            final(self).is_modified_flag(),
            op matches EditOperation::Insert { pos, text: t } && pos == char_idx && t@ == text@,
            final(self)@ == apply_op(old(self)@, op),
    {
        let op = EditOperation::Insert { pos: char_idx, text: String::from_str(text) };
        rope_insert(&mut self.rope, char_idx, text);
        self.modified = true;
        op
    }

    /// Delete the chars in `range`; returns the operation performed.
    pub fn delete(&mut self, range: std::ops::Range<usize>) -> (op: EditOperation)
        requires
            range.start <= range.end <= old(self)@.len(),
        ensures
            final(self)@ == old(self)@.take(range.start as int) + old(self)@.skip(
                range.end as int,
            ),
            final(self).is_modified_flag(),
            op matches EditOperation::Delete { pos, text: t } && pos == range.start && t@
                == old(self)@.subrange(range.start as int, range.end as int),
    {
        let deleted = rope_slice_string(&self.rope, range.start, range.end);
        let op = EditOperation::Delete { pos: range.start, text: deleted };
        rope_remove(&mut self.rope, range.start, range.end);
        self.modified = true;
        op
    }

    pub fn text(&self) -> (s: String)
        ensures
            s@ == self@,
    {
        rope_to_string(&self.rope)
    }

    /// Line `idx`, its line break included, if there is such a line.
    pub fn line(&self, idx: usize) -> (r: Option<String>)
        ensures
            match r {
                Some(s) => idx < rope_line_count(self@) && is_line_text(self@, idx as nat, s@),
                None => idx >= rope_line_count(self@),
            },
    {
        if idx < self.line_count() {
            Some(rope_line_string(&self.rope, idx))
        } else {
            None
        }
    }

    /// Line `idx` without its trailing `'\n'` chars, if there is such a line.
    pub fn line_to_string(&self, idx: usize) -> (r: Option<String>)
        ensures
            match r {
                Some(s) => idx < rope_line_count(self@) && s@ == trim_newlines(
                    line_of(self@, idx as nat),
                ) && is_line_text(self@, idx as nat, line_of(self@, idx as nat)),
                None => idx >= rope_line_count(self@),
            },
    {
        match self.line(idx) {
            Some(l) => {
                let mut chars = chars_of(l.as_str());
                trim_trailing_newlines(&mut chars);
                Some(string_from_chars(&chars))
            },
            None => None,
        }
    }

    pub fn line_count(&self) -> (n: usize)
        ensures
            n == rope_line_count(self@),
            n >= 1,
    {
        rope_len_lines(&self.rope)
    }

    pub fn char_count(&self) -> (n: usize)
        ensures
            n == self@.len(),
    {
        rope_len_chars(&self.rope)
    }

    /// The length of line `line_idx` without its final `'\n'`; 0 past the
    /// last line.
    pub fn line_len(&self, line_idx: usize) -> (n: usize)
        ensures
            line_idx >= rope_line_count(self@) ==> n == 0,
            line_idx < rope_line_count(self@) ==> n == line_len_of(line_of(self@, line_idx as nat))
                && is_line_text(self@, line_idx as nat, line_of(self@, line_idx as nat)),
    {
        if line_idx >= self.line_count() {
            return 0;
        }
        let line = rope_line_string(&self.rope, line_idx);
        let chars = chars_of(line.as_str());
        let len = chars.len();
        if len > 0 {
            if chars[len - 1] == '\n' {
                return len - 1;
            }
        }
        len
    }

    pub fn line_to_char(&self, line_idx: usize) -> (idx: usize)
        requires
            line_idx <= rope_line_count(self@),
        ensures
            idx == rope_line_start(self@, line_idx as nat),
            idx <= self@.len(),
            line_idx == 0 ==> idx == 0,
            line_idx == rope_line_count(self@) ==> idx == self@.len(),
    {
        rope_line_to_char(&self.rope, line_idx)
    }

    pub fn char_to_line(&self, char_idx: usize) -> (line: usize)
        requires
            char_idx <= self@.len(),
        ensures
            line == rope_char_line(self@, char_idx as nat),
            line < rope_line_count(self@),
            rope_line_start(self@, line as nat) <= char_idx,
    {
        rope_char_to_line(&self.rope, char_idx)
    }

    pub fn is_modified(&self) -> (r: bool)
        ensures
            r == self.is_modified_flag(),
    {
        self.modified
    }

    pub fn set_unmodified(&mut self)
        ensures
            final(self)@ == old(self)@,
            !final(self).is_modified_flag(),
    {
        self.modified = false;
    }

    pub fn rope(&self) -> (r: &Rope)
        ensures
            rope_text(*r) == self@,
    {
        &self.rope
    }

    /// Apply an edit operation (used for redo).
    pub fn apply(&mut self, op: &EditOperation)
        requires
            op_applies(old(self)@, *op),
        ensures
            final(self)@ == apply_op(old(self)@, *op),
            final(self).is_modified_flag(),
    {
        match op {
            EditOperation::Insert { pos, text } => {
                rope_insert(&mut self.rope, *pos, text.as_str());
            },
            EditOperation::Delete { pos, text } => {
                let _total = rope_len_chars(&self.rope);
                let n = chars_of(text.as_str()).len();
                rope_remove(&mut self.rope, *pos, *pos + n);
            },
        }
        self.modified = true;
    }

    /// Apply the reverse of an edit operation (used for undo).
    pub fn apply_reverse(&mut self, op: &EditOperation)
        requires
            unapply_applies(old(self)@, *op),
        ensures
            final(self)@ == unapply_op(old(self)@, *op),
            final(self).is_modified_flag(),
    {
        match op {
            EditOperation::Insert { pos, text } => {
                let _total = rope_len_chars(&self.rope);
                let n = chars_of(text.as_str()).len();
                rope_remove(&mut self.rope, *pos, *pos + n);
            },
            EditOperation::Delete { pos, text } => {
                rope_insert(&mut self.rope, *pos, text.as_str());
            },
        }
        self.modified = true;
    }
}

impl Default for Buffer {
    fn default() -> (b: Buffer)
        ensures
            b@ == Seq::<char>::empty(),
            !b.is_modified_flag(),
    {
        Buffer::new()
    }
}

/// An operation is undone by its reverse: applying it and then its reverse
/// gives back the text. (A delete records the chars it removed.)
pub proof fn law_reverse_undoes(t: Seq<char>, op: EditOperation)
    requires
        op_applies(t, op),
        match op {
            EditOperation::Insert { .. } => true,
            EditOperation::Delete { pos, text } => text@ == t.subrange(pos as int, pos + text@.len()),
        },
    ensures
        unapply_applies(apply_op(t, op), op),
        unapply_op(apply_op(t, op), op) == t,
{
    match op {
        EditOperation::Insert { pos, text } => {
            let u = apply_op(t, op);
            assert(u.take(pos as int) =~= t.take(pos as int));
            assert(u.skip(pos + text@.len()) =~= t.skip(pos as int));
            assert(t.take(pos as int) + t.skip(pos as int) =~= t);
        },
        EditOperation::Delete { pos, text } => {
            let u = apply_op(t, op);
            assert(u.take(pos as int) =~= t.take(pos as int));
            assert(u.skip(pos as int) =~= t.skip(pos + text@.len()));
            assert(t.take(pos as int) + text@ + t.skip(pos + text@.len()) =~= t);
        },
    }
}

} // verus!
