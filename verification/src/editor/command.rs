use vstd::prelude::*;

verus! {

/// High-level editor commands. Paths are carried as their text.
#[derive(Debug, Clone)]
pub enum Command {
    // Editing
    InsertChar(char),
    InsertText(String),
    NewLine,
    DeleteForward,
    DeleteBackward,
    DeleteLine,
    DeleteToLineEnd,
    // Movement
    MoveUp(usize),
    MoveDown(usize),
    MoveLeft(usize),
    MoveRight(usize),
    MoveWordForward,
    MoveWordBackward,
    MoveLineStart,
    MoveLineEnd,
    MoveFileStart,
    MoveFileEnd,
    PageUp,
    PageDown,
    GotoLine(usize),
    // Selection
    SelectAll,
    SelectLine,
    SelectWord,
    // Clipboard
    Copy,
    Cut,
    Paste(String),
    Yank { text: String },
    // History
    Undo,
    Redo,
    // File
    Save,
    SaveAs(String),
    Open(String),
    // Search
    Find(String),
    FindNext,
    FindPrev,
    Replace { find: String, replace: String },
    ReplaceAll { find: String, replace: String },
    // Application
    Quit,
    ForceQuit,
}

/// The text that a tab inserts: four spaces.
pub fn indent_text() -> (s: String)
    ensures
        s@ == seq![' ', ' ', ' ', ' '],
{
    let s = String::from_str("    ");
    proof {
        reveal_strlit("    ");
    }
    s
}

} // verus!
