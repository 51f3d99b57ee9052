use vstd::prelude::*;

verus! {

/// A single edit operation (insert or delete) at a char index.
#[derive(Debug, Clone, PartialEq)]
pub enum EditOperation {
    Insert { pos: usize, text: String },
    Delete { pos: usize, text: String },
}

/// A transaction groups multiple edits into one undoable unit.
#[derive(Debug, Clone)]
pub struct Transaction {
    operations: Vec<EditOperation>,
}

impl View for Transaction {
    type V = Seq<EditOperation>;

    closed spec fn view(&self) -> Seq<EditOperation> {
        self.operations@
    }
}

impl Transaction {
    pub fn new() -> (t: Transaction)
        ensures
            t@ == Seq::<EditOperation>::empty(),
    {
        Transaction { operations: Vec::new() }
    }

    pub fn push(&mut self, op: EditOperation)
        ensures
            final(self)@ == old(self)@.push(op),
    {
        self.operations.push(op);
    }

    pub fn operations(&self) -> (ops: &[EditOperation])
        ensures
            ops@ == self@,
    {
        self.operations.as_slice()
    }

    pub fn is_empty(&self) -> (r: bool)
        ensures
            r == (self@.len() == 0),
    {
        self.operations.len() == 0
    }
}

impl Default for Transaction {
    fn default() -> (t: Transaction)
        ensures
            t@ == Seq::<EditOperation>::empty(),
    {
        Transaction::new()
    }
}

/// Linear undo/redo history.
#[derive(Debug)]
pub struct History {
    undo_stack: Vec<Transaction>,
    redo_stack: Vec<Transaction>,
    current: Option<Transaction>,
}

/// The abstract state of a [`History`]: the stacks of committed and undone
/// transactions (last element on top) and the transaction being recorded.
pub struct HistoryView {
    pub undo: Seq<Seq<EditOperation>>,
    pub redo: Seq<Seq<EditOperation>>,
    pub current: Option<Seq<EditOperation>>,
}

pub open spec fn txn_views(s: Seq<Transaction>) -> Seq<Seq<EditOperation>> {
    s.map_values(|t: Transaction| t@)
}

pub open spec fn opt_txn_view(o: Option<Transaction>) -> Option<Seq<EditOperation>> {
    match o {
        Some(t) => Some(t@),
        None => None,
    }
}

impl View for History {
    type V = HistoryView;

    closed spec fn view(&self) -> HistoryView {
        HistoryView {
            undo: txn_views(self.undo_stack@),
            redo: txn_views(self.redo_stack@),
            current: opt_txn_view(self.current),
        }
    }
}

/// The transaction being recorded, if any, holds at least one operation.
/// Every operation of `History` keeps this.
pub open spec fn pending_nonempty(h: HistoryView) -> bool {
    h.current matches Some(t) ==> t.len() > 0
}

/// The history after the transaction being recorded is committed: a
/// non-empty one goes onto the undo stack and clears the redo stack; an
/// empty one is dropped.
pub open spec fn committed(h: HistoryView) -> HistoryView {
    match h.current {
        Some(t) => if t.len() > 0 {
            HistoryView { undo: h.undo.push(t), redo: Seq::empty(), current: None }
        } else {
            HistoryView { current: None, ..h }
        },
        None => h,
    }
}

/// The history after an undo: the top committed transaction moves to the
/// redo stack.
pub open spec fn undone(h: HistoryView) -> HistoryView {
    let c = committed(h);
    if c.undo.len() > 0 {
        HistoryView { undo: c.undo.drop_last(), redo: c.redo.push(c.undo.last()), current: None }
    } else {
        c
    }
}

/// The transaction that an undo hands back, if any.
pub open spec fn undo_target(h: HistoryView) -> Option<Seq<EditOperation>> {
    let c = committed(h);
    if c.undo.len() > 0 {
        Some(c.undo.last())
    } else {
        None
    }
}

/// The history after a redo: the top undone transaction moves back.
pub open spec fn redone(h: HistoryView) -> HistoryView {
    if h.redo.len() > 0 {
        HistoryView { undo: h.undo.push(h.redo.last()), redo: h.redo.drop_last(), ..h }
    } else {
        h
    }
}

pub open spec fn redo_target(h: HistoryView) -> Option<Seq<EditOperation>> {
    if h.redo.len() > 0 {
        Some(h.redo.last())
    } else {
        None
    }
}

proof fn lemma_push_views(s: Seq<Transaction>, t: Transaction)
    ensures
        txn_views(s.push(t)) == txn_views(s).push(t@),
{
    assert(txn_views(s.push(t)) =~= txn_views(s).push(t@));
}

proof fn lemma_drop_last_views(s: Seq<Transaction>)
    requires
        s.len() > 0,
    ensures
        txn_views(s.drop_last()) == txn_views(s).drop_last(),
        txn_views(s).last() == s.last()@,
{
    assert(txn_views(s.drop_last()) =~= txn_views(s).drop_last());
}

impl History {
    pub fn new() -> (h: History)
        ensures
            h@.undo.len() == 0,
            h@.redo.len() == 0,
            h@.current is None,
            pending_nonempty(h@),
    {
        History { undo_stack: Vec::new(), redo_stack: Vec::new(), current: None }
    }

    /// Record an edit operation into the current transaction, opening one if
    /// none is open.
    pub fn record(&mut self, op: EditOperation)
        ensures
            final(self)@.undo == old(self)@.undo,
            final(self)@.redo == old(self)@.redo,
            final(self)@.current == Some(
                match old(self)@.current {
                    Some(t) => t.push(op),
                    None => seq![op],
                },
            ),
            pending_nonempty(final(self)@),
    {
        let cur = self.current.take();
        let mut txn = match cur {
            Some(t) => t,
            None => Transaction::new(),
        };
        txn.push(op);
        self.current = Some(txn);
    }

    /// Commit the current transaction to the undo stack.
    pub fn commit(&mut self)
        ensures
            final(self)@ == committed(old(self)@),
            pending_nonempty(final(self)@),
    {
        let cur = self.current.take();
        if let Some(txn) = cur {
            if !txn.is_empty() {
                proof {
                    lemma_push_views(self.undo_stack@, txn);
                }
                self.undo_stack.push(txn);
                self.redo_stack.clear();
                assert(txn_views(self.redo_stack@) =~= Seq::<Seq<EditOperation>>::empty());
            }
        }
    }

    /// Undo the last transaction (committing the open one first). Returns the
    /// operations to reverse.
    pub fn undo(&mut self) -> (r: Option<&Transaction>)
        ensures
            final(self)@ == undone(old(self)@),
            pending_nonempty(final(self)@),
            match r {
                Some(t) => undo_target(old(self)@) == Some(t@),
                None => undo_target(old(self)@) is None,
            },
    {
        self.commit();
        let ghost mid = self.undo_stack@;
        if let Some(txn) = self.undo_stack.pop() {
            proof {
                lemma_drop_last_views(mid);
                lemma_push_views(self.redo_stack@, txn);
            }
            self.redo_stack.push(txn);
            let n = self.redo_stack.len();
            Some(&self.redo_stack[n - 1])
        } else {
            None
        }
    }

    /// Redo the last undone transaction. Returns the operations to apply.
    pub fn redo(&mut self) -> (r: Option<&Transaction>)
        ensures
            final(self)@ == redone(old(self)@),
            pending_nonempty(old(self)@) ==> pending_nonempty(final(self)@),
            match r {
                Some(t) => redo_target(old(self)@) == Some(t@),
                None => redo_target(old(self)@) is None,
            },
    {
        let ghost mid = self.redo_stack@;
        if let Some(txn) = self.redo_stack.pop() {
            proof {
                lemma_drop_last_views(mid);
                lemma_push_views(self.undo_stack@, txn);
            }
            self.undo_stack.push(txn);
            let n = self.undo_stack.len();
            Some(&self.undo_stack[n - 1])
        } else {
            None
        }
    }

    /// The transaction an undo would hand back, without undoing it.
    pub fn undo_preview(&self) -> (r: Option<&Transaction>)
        ensures
            match r {
                Some(t) => undo_target(self@) == Some(t@),
                None => undo_target(self@) is None,
            },
    {
        if let Some(t) = &self.current {
            if !t.is_empty() {
                return Some(t);
            }
        }
        let n = self.undo_stack.len();
        if n > 0 {
            proof {
                lemma_drop_last_views(self.undo_stack@);
            }
            Some(&self.undo_stack[n - 1])
        } else {
            None
        }
    }

    /// The transaction a redo would hand back, without redoing it.
    pub fn redo_preview(&self) -> (r: Option<&Transaction>)
        ensures
            match r {
                Some(t) => redo_target(self@) == Some(t@),
                None => redo_target(self@) is None,
            },
    {
        let n = self.redo_stack.len();
        if n > 0 {
            proof {
                lemma_drop_last_views(self.redo_stack@);
            }
            Some(&self.redo_stack[n - 1])
        } else {
            None
        }
    }

    pub fn can_undo(&self) -> (r: bool)
        ensures
            r == (self@.undo.len() > 0 || self@.current is Some),
    {
        self.undo_stack.len() > 0 || self.current.is_some()
    }

    pub fn can_redo(&self) -> (r: bool)
        ensures
            r == (self@.redo.len() > 0),
    {
        self.redo_stack.len() > 0
    }
}

impl Default for History {
    fn default() -> (h: History)
        ensures
            h@.undo.len() == 0,
            h@.redo.len() == 0,
            h@.current is None,
    {
        History::new()
    }
}

/// Redo undoes an undo: after an undo that handed back a transaction, a redo
/// hands back that same transaction and leaves the history as it stood once
/// the open transaction was committed.
pub proof fn law_redo_after_undo(h: HistoryView)
    requires
        undo_target(h) is Some,
    ensures
        redo_target(undone(h)) == undo_target(h),
        redone(undone(h)) == committed(h),
{
    let c = committed(h);
    assert(c.undo.drop_last().push(c.undo.last()) =~= c.undo);
    assert(c.redo.push(c.undo.last()).drop_last() =~= c.redo);
}

/// Committing a new, non-empty edit makes it the next thing to undo and
/// forgets everything that could have been redone.
pub proof fn law_commit_clears_redo(h: HistoryView)
    requires
        h.current matches Some(t) && t.len() > 0,
    ensures
        committed(h).redo.len() == 0,
        undo_target(committed(h)) == h.current,
        committed(h).current is None,
{
}

/// Something can be undone exactly when an undo hands back a transaction,
/// in every state the history's operations reach (they keep the transaction
/// being recorded non-empty).
pub proof fn law_can_undo_iff_undo(h: HistoryView)
    requires
        pending_nonempty(h),
    ensures
        (h.undo.len() > 0 || h.current is Some) == (undo_target(h) is Some),
{
}

} // verus!
