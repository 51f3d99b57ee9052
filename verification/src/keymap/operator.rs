use vstd::prelude::*;

use crate::editor::command::{indent_text, Command};
use crate::geometry::Position;

verus! {

/// Vim operators that act on a motion range.
#[derive(Debug, Clone, Copy, PartialEq, Eq, Structural)]
pub enum Operator {
    Delete,
    Yank,
    Change,
    Indent,
    Unindent,
}

/// The number of lines spanned by the range between two positions, in
/// either order.
pub open spec fn spanned_lines(start: Position, end: Position) -> int {
    if start.spec_le(end) {
        end.line - start.line + 1
    } else {
        start.line - end.line + 1
    }
}

impl Operator {
    /// Convert an operator over the range `start..end` (in either order) into
    /// editor commands: delete and change delete forward, yank copies, indent
    /// inserts four spaces once per spanned line, unindent deletes backward
    /// once per spanned line.
    pub fn to_commands(self, start: Position, end: Position) -> (cmds: Vec<Command>)
        requires
            spanned_lines(start, end) <= usize::MAX,
        ensures
            self == Operator::Delete ==> cmds@.len() == 1 && cmds@[0] is DeleteForward,
            self == Operator::Change ==> cmds@.len() == 1 && cmds@[0] is DeleteForward,
            self == Operator::Yank ==> cmds@.len() == 1 && cmds@[0] is Copy,
            self == Operator::Indent ==> {
                &&& cmds@.len() == spanned_lines(start, end)
                &&& forall|i: int|
                    0 <= i < cmds@.len() ==> (#[trigger] cmds@[i] matches Command::InsertText(s)
                        && s@ == seq![' ', ' ', ' ', ' '])
            },
            self == Operator::Unindent ==> {
                &&& cmds@.len() == spanned_lines(start, end)
                &&& forall|i: int| 0 <= i < cmds@.len() ==> #[trigger] cmds@[i] is DeleteBackward
            },
    {
        let (from, to) = if start.le(&end) {
            (start, end)
        } else {
            (end, start)
        };
        match self {
            Operator::Delete => {
                let mut v = Vec::new();
                v.push(Command::DeleteForward);
                v
            },
            Operator::Yank => {
                let mut v = Vec::new();
                v.push(Command::Copy);
                v
            },
            Operator::Change => {
                let mut v = Vec::new();
                v.push(Command::DeleteForward);
                v
            },
            Operator::Indent => {
                let total: usize = to.line - from.line + 1;
                let mut cmds: Vec<Command> = Vec::new();
                let mut i: usize = 0;
                while i < total
                    invariant
                        i <= total,
                        total == spanned_lines(start, end),
                        cmds@.len() == i,
                        forall|k: int|
                            0 <= k < cmds@.len() ==> (#[trigger] cmds@[k] matches Command::InsertText(
                                s,
                            ) && s@ == seq![' ', ' ', ' ', ' ']),
                    decreases total - i,
                {
                    cmds.push(Command::InsertText(indent_text()));
                    i = i + 1;
                }
                cmds
            },
            Operator::Unindent => {
                let total: usize = to.line - from.line + 1;
                let mut cmds: Vec<Command> = Vec::new();
                let mut i: usize = 0;
                while i < total
                    invariant
                        i <= total,
                        total == spanned_lines(start, end),
                        cmds@.len() == i,
                        forall|k: int| 0 <= k < cmds@.len() ==> #[trigger] cmds@[k] is DeleteBackward,
                    decreases total - i,
                {
                    cmds.push(Command::DeleteBackward);
                    i = i + 1;
                }
                cmds
            },
        }
    }
}

} // verus!
