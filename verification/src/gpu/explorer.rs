//! Where a key goes in the editor screen, and what it does in the file
//! explorer pane.

use vstd::prelude::*;

use crate::event::{KeyCode, KeyEvent, Modifiers};

verus! {

/// The explorer operation a key asks for.
#[derive(Debug, Clone, Copy, PartialEq, Eq, Structural)]
pub enum ExplorerCommand {
    /// Delete the entry awaiting confirmation.
    ConfirmDelete,
    /// Leave the name prompt or the delete confirmation.
    CancelInput,
    /// Accept the typed name, opening the created file if there is one.
    ConfirmInput,
    /// Remove the last typed char.
    PopInput,
    /// Type a char into the name prompt.
    PushInput(char),
    CursorDown,
    CursorUp,
    /// Open the selected file, or expand or collapse the selected directory.
    Activate,
    /// Collapse the current directory.
    Collapse,
    /// Prompt for the name of a new entry: a directory when `true`.
    StartCreate(bool),
    RequestDelete,
    StartRename,
    /// Hide the explorer pane.
    ToggleExplorer,
    /// The key does nothing here.
    Nothing,
}

/// The command of a key, given whether a delete awaits confirmation and
/// whether a name prompt is open (a pending confirmation comes first).
pub open spec fn explorer_command(in_confirm: bool, in_input: bool, key: KeyEvent) -> ExplorerCommand {
    if in_confirm {
        if key.code == KeyCode::Char('y') {
            ExplorerCommand::ConfirmDelete
        } else {
            ExplorerCommand::CancelInput
        }
    } else if in_input {
        match key.code {
            KeyCode::Escape => ExplorerCommand::CancelInput,
            KeyCode::Enter => ExplorerCommand::ConfirmInput,
            KeyCode::Backspace => ExplorerCommand::PopInput,
            KeyCode::Char(c) => ExplorerCommand::PushInput(c),
            _ => ExplorerCommand::Nothing,
        }
    } else {
        match key.code {
            KeyCode::Char('j') | KeyCode::Down => ExplorerCommand::CursorDown,
            KeyCode::Char('k') | KeyCode::Up => ExplorerCommand::CursorUp,
            KeyCode::Char('l') | KeyCode::Enter => ExplorerCommand::Activate,
            KeyCode::Char('h') | KeyCode::Backspace => ExplorerCommand::Collapse,
            KeyCode::Char('a') => ExplorerCommand::StartCreate(false),
            KeyCode::Char('A') => ExplorerCommand::StartCreate(true),
            KeyCode::Char('d') => ExplorerCommand::RequestDelete,
            KeyCode::Char('r') => ExplorerCommand::StartRename,
            KeyCode::Char('q') | KeyCode::Escape => ExplorerCommand::ToggleExplorer,
            _ => ExplorerCommand::Nothing,
        }
    }
}

/// Decide what a key does in the file explorer.
pub fn handle_explorer_key(in_confirm: bool, in_input: bool, key: KeyEvent) -> (r: ExplorerCommand)
    ensures
        r == explorer_command(in_confirm, in_input, key),
{
    if in_confirm {
        return match key.code {
            KeyCode::Char('y') => ExplorerCommand::ConfirmDelete,
            _ => ExplorerCommand::CancelInput,
        };
    }
    if in_input {
        return match key.code {
            KeyCode::Escape => ExplorerCommand::CancelInput,
            KeyCode::Enter => ExplorerCommand::ConfirmInput,
            KeyCode::Backspace => ExplorerCommand::PopInput,
            KeyCode::Char(c) => ExplorerCommand::PushInput(c),
            _ => ExplorerCommand::Nothing,
        };
    }
    match key.code {
        KeyCode::Char('j') | KeyCode::Down => ExplorerCommand::CursorDown,
        KeyCode::Char('k') | KeyCode::Up => ExplorerCommand::CursorUp,
        KeyCode::Char('l') | KeyCode::Enter => ExplorerCommand::Activate,
        KeyCode::Char('h') | KeyCode::Backspace => ExplorerCommand::Collapse,
        KeyCode::Char('a') => ExplorerCommand::StartCreate(false),
        KeyCode::Char('A') => ExplorerCommand::StartCreate(true),
        KeyCode::Char('d') => ExplorerCommand::RequestDelete,
        KeyCode::Char('r') => ExplorerCommand::StartRename,
        KeyCode::Char('q') | KeyCode::Escape => ExplorerCommand::ToggleExplorer,
        _ => ExplorerCommand::Nothing,
    }
}

/// While a name prompt is open, every char key types itself, so no key
/// command (create, delete, quit) can fire.
pub proof fn law_prompt_captures_chars(c: char, key: KeyEvent)
    requires
        key.code == KeyCode::Char(c),
    ensures
        explorer_command(false, true, key) == ExplorerCommand::PushInput(c),
        explorer_command(true, true, key) == ExplorerCommand::ConfirmDelete || explorer_command(
            true,
            true,
            key,
        ) == ExplorerCommand::CancelInput,
{
}

/// What the focused pane shows.
#[derive(Debug, Clone, Copy, PartialEq, Eq, Structural)]
pub enum PaneKind {
    Editor,
    Terminal,
    FileExplorer,
}

/// Where a key of the editor screen goes.
#[derive(Debug, Clone, Copy, PartialEq, Eq, Structural)]
pub enum KeyRoute {
    /// Save the focused document.
    SaveFocused,
    /// The editor's own key handling (modes, commands, workspace keys).
    EditorKeys,
    /// The focused terminal, as its escape bytes.
    Terminal,
    /// The focused file explorer.
    Explorer,
}

/// Where a key goes: `Cmd+S` saves; in a terminal or explorer pane the
/// workspace prefix `Ctrl+A` still reaches the editor's key handling and
/// every other key goes to the pane; anything else goes to the editor's
/// key handling.
pub open spec fn editor_key_route(pane: Option<PaneKind>, key: KeyEvent) -> KeyRoute {
    if key.code == KeyCode::Char('s') && key.modifiers.spec_contains(Modifiers(8)) {
        KeyRoute::SaveFocused
    } else {
        match pane {
            Some(PaneKind::Terminal) => if key.code == KeyCode::Char('a') && key.modifiers.spec_contains(
                Modifiers(1),
            ) {
                KeyRoute::EditorKeys
            } else {
                KeyRoute::Terminal
            },
            Some(PaneKind::FileExplorer) => if key.code == KeyCode::Char('a')
                && key.modifiers.spec_contains(Modifiers(1)) {
                KeyRoute::EditorKeys
            } else {
                KeyRoute::Explorer
            },
            _ => KeyRoute::EditorKeys,
        }
    }
}

/// Decide where a key of the editor screen goes, given the focused pane
/// (none when no pane has focus).
pub fn handle_editor_key(pane: Option<PaneKind>, key: KeyEvent) -> (r: KeyRoute)
    ensures
        r == editor_key_route(pane, key),
{
    if key.code == KeyCode::Char('s') && key.modifiers.contains(Modifiers::SUPER()) {
        return KeyRoute::SaveFocused;
    }
    let prefix = key.code == KeyCode::Char('a') && key.modifiers.contains(Modifiers::CTRL());
    match pane {
        Some(PaneKind::Terminal) => if prefix {
            KeyRoute::EditorKeys
        } else {
            KeyRoute::Terminal
        },
        Some(PaneKind::FileExplorer) => if prefix {
            KeyRoute::EditorKeys
        } else {
            KeyRoute::Explorer
        },
        _ => KeyRoute::EditorKeys,
    }
}

} // verus!
