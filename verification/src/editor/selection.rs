use vstd::prelude::*;

use crate::geometry::Position;

verus! {

/// A single selection defined by anchor and head.
#[derive(Debug, Clone, Copy, PartialEq, Eq, Structural)]
pub struct Selection {
    pub anchor: Position,
    pub head: Position,
}

impl Selection {
    pub fn new(anchor: Position, head: Position) -> (s: Selection)
        ensures
            s.anchor == anchor,
            s.head == head,
    {
        Selection { anchor, head }
    }

    /// An empty selection at a position.
    pub fn caret(pos: Position) -> (s: Selection)
        ensures
            s.anchor == pos,
            s.head == pos,
    {
        Selection { anchor: pos, head: pos }
    }

    pub fn is_empty(&self) -> (r: bool)
        ensures
            r == (self.anchor == self.head),
    {
        self.anchor == self.head
    }

    /// The earlier and the later end of the selection.
    pub open spec fn spec_ordered(self) -> (Position, Position) {
        if self.anchor.spec_le(self.head) {
            (self.anchor, self.head)
        } else {
            (self.head, self.anchor)
        }
    }

    /// Returns (start, end) with start <= end.
    pub fn ordered(&self) -> (r: (Position, Position))
        ensures
            r == self.spec_ordered(),
            r.0.spec_le(r.1),
    {
        if self.anchor.le(&self.head) {
            (self.anchor, self.head)
        } else {
            (self.head, self.anchor)
        }
    }

    /// The position lies between the two ends, both included.
    pub fn contains(&self, pos: Position) -> (r: bool)
        ensures
            r == (self.spec_ordered().0.spec_le(pos) && pos.spec_le(self.spec_ordered().1)),
    {
        let (start, end) = self.ordered();
        start.le(&pos) && pos.le(&end)
    }
}

/// Set of selections (for multi-cursor) with a primary one.
#[derive(Debug, Clone)]
pub struct SelectionSet {
    selections: Vec<Selection>,
    primary: usize,
}

impl View for SelectionSet {
    type V = Seq<Selection>;

    closed spec fn view(&self) -> Seq<Selection> {
        self.selections@
    }
}

pub open spec fn origin_caret() -> Selection {
    Selection { anchor: Position { line: 0, col: 0 }, head: Position { line: 0, col: 0 } }
}

impl SelectionSet {
    pub closed spec fn primary_index(&self) -> nat {
        self.primary as nat
    }

    pub open spec fn wf(&self) -> bool {
        self.primary_index() < self@.len()
    }

    pub open spec fn spec_primary(&self) -> Selection {
        self@[self.primary_index() as int]
    }

    /// One empty selection at the start of the document.
    pub fn new() -> (s: SelectionSet)
        ensures
            s.wf(),
            s@ == seq![origin_caret()],
            s.primary_index() == 0,
    {
        let mut selections = Vec::new();
        selections.push(Selection::caret(Position::new(0, 0)));
        SelectionSet { selections, primary: 0 }
    }

    pub fn primary(&self) -> (s: &Selection)
        requires
            self.wf(),
        ensures
            *s == self.spec_primary(),
    {
        &self.selections[self.primary]
    }

    pub fn primary_mut(&mut self) -> (s: &mut Selection)
        requires
            old(self).wf(),
        ensures
            *s == old(self).spec_primary(),
            final(self)@ == old(self)@.update(old(self).primary_index() as int, *final(s)),
            final(self).primary_index() == old(self).primary_index(),
            final(self).wf(),
    {
        &mut self.selections[self.primary]
    }

    pub fn all(&self) -> (s: &[Selection])
        ensures
            s@ == self@,
    {
        self.selections.as_slice()
    }

    /// Replace the primary selection.
    pub fn set_primary(&mut self, selection: Selection)
        requires
            old(self).wf(),
        ensures
            final(self).wf(),
            final(self)@ == old(self)@.update(old(self).primary_index() as int, selection),
            final(self).primary_index() == old(self).primary_index(),
    {
        let p = self.primary;
        self.selections.set(p, selection);
    }

    /// Back to one empty selection at the start of the document.
    pub fn clear(&mut self)
        ensures
            final(self).wf(),
            final(self)@ == seq![origin_caret()],
            final(self).primary_index() == 0,
    {
        let mut selections = Vec::new();
        selections.push(Selection::caret(Position::new(0, 0)));
        self.selections = selections;
        self.primary = 0;
    }
}

impl Default for SelectionSet {
    fn default() -> (s: SelectionSet)
        ensures
            s.wf(),
            s@ == seq![origin_caret()],
            s.primary_index() == 0,
    {
        SelectionSet::new()
    }
}

} // verus!
