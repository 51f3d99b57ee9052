use vstd::prelude::*;

use crate::geometry::Position;

verus! {

/// A cursor: its position and the column it tries to keep when moving
/// vertically through shorter lines.
#[derive(Debug, Clone, Copy, PartialEq, Eq, Structural)]
pub struct Cursor {
    pub position: Position,
    /// Desired column when moving vertically through shorter lines.
    pub sticky_col: usize,
}

impl Cursor {
    pub fn new(line: usize, col: usize) -> (c: Cursor)
        ensures
            c.position == (Position { line, col }),
            c.sticky_col == col,
    {
        Cursor { position: Position::new(line, col), sticky_col: col }
    }

    pub fn line(&self) -> (l: usize)
        ensures
            l == self.position.line,
    {
        self.position.line
    }

    pub fn col(&self) -> (c: usize)
        ensures
            c == self.position.col,
    {
        self.position.col
    }

    /// Move and remember the new column as the sticky one.
    pub fn move_to(&mut self, line: usize, col: usize)
        ensures
            final(self).position == (Position { line, col }),
            final(self).sticky_col == col,
    {
        self.position = Position::new(line, col);
        self.sticky_col = col;
    }

    /// Move without changing the sticky column.
    pub fn move_to_keeping_sticky(&mut self, line: usize, col: usize)
        ensures
            final(self).position == (Position { line, col }),
            final(self).sticky_col == old(self).sticky_col,
    {
        self.position = Position::new(line, col);
    }
}

/// Cursor state supporting multi-cursor editing: the cursors and which one
/// is primary.
#[derive(Debug, Clone)]
pub struct CursorSet {
    cursors: Vec<Cursor>,
    primary: usize,
}

impl View for CursorSet {
    type V = Seq<Cursor>;

    closed spec fn view(&self) -> Seq<Cursor> {
        self.cursors@
    }
}

impl CursorSet {
    /// The index of the primary cursor.
    pub closed spec fn primary_index(&self) -> nat {
        self.primary as nat
    }

    /// The primary index points at a cursor.
    pub open spec fn wf(&self) -> bool {
        self.primary_index() < self@.len()
    }

    pub open spec fn spec_primary(&self) -> Cursor {
        self@[self.primary_index() as int]
    }

    /// A single cursor at the start of the document.
    pub fn new() -> (s: CursorSet)
        ensures
            s.wf(),
            s@ == seq![Cursor { position: Position { line: 0, col: 0 }, sticky_col: 0 }],
            s.primary_index() == 0,
    {
        let mut cursors = Vec::new();
        cursors.push(Cursor::new(0, 0));
        CursorSet { cursors, primary: 0 }
    }

    /// Whether the primary index points at a cursor.
    pub fn primary_in_range(&self) -> (r: bool)
        ensures
            r == self.wf(),
    {
        self.primary < self.cursors.len()
    }

    pub fn primary(&self) -> (c: &Cursor)
        requires
            self.wf(),
        ensures
            *c == self.spec_primary(),
    {
        &self.cursors[self.primary]
    }

    pub fn primary_mut(&mut self) -> (c: &mut Cursor)
        requires
            old(self).wf(),
        ensures
            *c == old(self).spec_primary(),
            final(self)@ == old(self)@.update(old(self).primary_index() as int, *final(c)),
            final(self).primary_index() == old(self).primary_index(),
            final(self).wf(),
    {
        &mut self.cursors[self.primary]
    }

    pub fn all(&self) -> (s: &[Cursor])
        ensures
            s@ == self@,
    {
        self.cursors.as_slice()
    }

    /// Add a secondary cursor at the end.
    pub fn add_cursor(&mut self, line: usize, col: usize)
        requires
            old(self).wf(),
        ensures
            final(self).wf(),
            final(self)@ == old(self)@.push(
                Cursor { position: Position { line, col }, sticky_col: col },
            ),
            final(self).primary_index() == old(self).primary_index(),
    {
        self.cursors.push(Cursor::new(line, col));
    }

    /// Drop every cursor but the primary one.
    pub fn clear_secondary(&mut self)
        requires
            old(self).wf(),
        ensures
            final(self).wf(),
            final(self)@ == seq![old(self).spec_primary()],
            final(self).primary_index() == 0,
    {
        let primary = self.cursors[self.primary];
        self.cursors.clear();
        self.cursors.push(primary);
        self.primary = 0;
    }

    pub fn cursor_count(&self) -> (n: usize)
        ensures
            n == self@.len(),
    {
        self.cursors.len()
    }
}

impl Default for CursorSet {
    fn default() -> (s: CursorSet)
        ensures
            s.wf(),
            s@ == seq![Cursor { position: Position { line: 0, col: 0 }, sticky_col: 0 }],
            s.primary_index() == 0,
    {
        CursorSet::new()
    }
}

} // verus!
