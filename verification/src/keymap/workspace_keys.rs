use vstd::prelude::*;

use crate::event::{KeyCode, KeyEvent, Modifiers};

verus! {

/// Actions triggered by workspace (tmux-style) key bindings.
#[derive(Debug, Clone, Copy, PartialEq, Eq, Structural)]
pub enum WorkspaceAction {
    SplitVertical,
    SplitHorizontal,
    FocusLeft,
    FocusRight,
    FocusUp,
    FocusDown,
    ResizeLeft(u32),
    ResizeRight(u32),
    ResizeUp(u32),
    ResizeDown(u32),
    NextTab,
    PrevTab,
    NewTab,
    CloseTab,
    ClosePane,
    ZoomPane,
    NewTerminal,
    Detach,
    Equalize,
}

/// The action bound to a key pressed after the workspace prefix. Modifiers
/// play no part.
pub open spec fn spec_workspace_action(code: KeyCode) -> Option<WorkspaceAction> {
    match code {
        KeyCode::Char(c) => {
            if c == '|' || c == '\\' {
                Some(WorkspaceAction::SplitVertical)
            } else if c == '-' {
                Some(WorkspaceAction::SplitHorizontal)
            } else if c == 'h' {
                Some(WorkspaceAction::FocusLeft)
            } else if c == 'j' {
                Some(WorkspaceAction::FocusDown)
            } else if c == 'k' {
                Some(WorkspaceAction::FocusUp)
            } else if c == 'l' {
                Some(WorkspaceAction::FocusRight)
            } else if c == 'H' {
                Some(WorkspaceAction::ResizeLeft(1))
            } else if c == 'J' {
                Some(WorkspaceAction::ResizeDown(1))
            } else if c == 'K' {
                Some(WorkspaceAction::ResizeUp(1))
            } else if c == 'L' {
                Some(WorkspaceAction::ResizeRight(1))
            } else if c == 'c' {
                Some(WorkspaceAction::NewTab)
            } else if c == 'n' {
                Some(WorkspaceAction::NextTab)
            } else if c == 'p' {
                Some(WorkspaceAction::PrevTab)
            } else if c == '&' {
                Some(WorkspaceAction::CloseTab)
            } else if c == 'x' {
                Some(WorkspaceAction::ClosePane)
            } else if c == 'z' {
                Some(WorkspaceAction::ZoomPane)
            } else if c == 't' {
                Some(WorkspaceAction::NewTerminal)
            } else if c == '=' {
                Some(WorkspaceAction::Equalize)
            } else if c == 'd' {
                Some(WorkspaceAction::Detach)
            } else {
                None
            }
        },
        KeyCode::Left => Some(WorkspaceAction::FocusLeft),
        KeyCode::Down => Some(WorkspaceAction::FocusDown),
        KeyCode::Up => Some(WorkspaceAction::FocusUp),
        KeyCode::Right => Some(WorkspaceAction::FocusRight),
        _ => None,
    }
}

/// Parse a key event after the workspace prefix (Ctrl-A) was pressed.
pub fn parse_workspace_key(key: &KeyEvent) -> (r: Option<WorkspaceAction>)
    ensures
        r == spec_workspace_action(key.code),
{
    match key.code {
        KeyCode::Char(c) => {
            if c == '|' || c == '\\' {
                Some(WorkspaceAction::SplitVertical)
            } else if c == '-' {
                Some(WorkspaceAction::SplitHorizontal)
            } else if c == 'h' {
                Some(WorkspaceAction::FocusLeft)
            } else if c == 'j' {
                Some(WorkspaceAction::FocusDown)
            } else if c == 'k' {
                Some(WorkspaceAction::FocusUp)
            } else if c == 'l' {
                Some(WorkspaceAction::FocusRight)
            } else if c == 'H' {
                Some(WorkspaceAction::ResizeLeft(1))
            } else if c == 'J' {
                Some(WorkspaceAction::ResizeDown(1))
            } else if c == 'K' {
                Some(WorkspaceAction::ResizeUp(1))
            } else if c == 'L' {
                Some(WorkspaceAction::ResizeRight(1))
            } else if c == 'c' {
                Some(WorkspaceAction::NewTab)
            } else if c == 'n' {
                Some(WorkspaceAction::NextTab)
            } else if c == 'p' {
                Some(WorkspaceAction::PrevTab)
            } else if c == '&' {
                Some(WorkspaceAction::CloseTab)
            } else if c == 'x' {
                Some(WorkspaceAction::ClosePane)
            } else if c == 'z' {
                Some(WorkspaceAction::ZoomPane)
            } else if c == 't' {
                Some(WorkspaceAction::NewTerminal)
            } else if c == '=' {
                Some(WorkspaceAction::Equalize)
            } else if c == 'd' {
                Some(WorkspaceAction::Detach)
            } else {
                None
            }
        },
        KeyCode::Left => Some(WorkspaceAction::FocusLeft),
        KeyCode::Down => Some(WorkspaceAction::FocusDown),
        KeyCode::Up => Some(WorkspaceAction::FocusUp),
        KeyCode::Right => Some(WorkspaceAction::FocusRight),
        _ => None,
    }
}

/// The workspace prefix is Ctrl held with `a` (other modifiers allowed).
pub open spec fn spec_is_prefix(key: KeyEvent) -> bool {
    key.code == KeyCode::Char('a') && key.modifiers.0 & 1u8 == 1u8
}

/// Check if a key event is the workspace prefix (Ctrl-A).
pub fn is_prefix(key: &KeyEvent) -> (r: bool)
    ensures
        r == spec_is_prefix(*key),
{
    let is_a = match key.code {
        KeyCode::Char(c) => c == 'a',
        _ => false,
    };
    is_a && key.modifiers.contains(Modifiers::CTRL())
}

/// Every workspace action is bound to some key after the prefix (the
/// resizes by one step), so none is out of reach.
pub proof fn law_every_action_has_a_key(a: WorkspaceAction)
    requires
        match a {
            WorkspaceAction::ResizeLeft(n) | WorkspaceAction::ResizeRight(n)
            | WorkspaceAction::ResizeUp(n) | WorkspaceAction::ResizeDown(n) => n == 1,
            _ => true,
        },
    ensures
        exists|code: KeyCode| spec_workspace_action(code) == Some(a),
{
    let c = match a {
        WorkspaceAction::SplitVertical => KeyCode::Char('|'),
        WorkspaceAction::SplitHorizontal => KeyCode::Char('-'),
        WorkspaceAction::FocusLeft => KeyCode::Char('h'),
        WorkspaceAction::FocusRight => KeyCode::Char('l'),
        WorkspaceAction::FocusUp => KeyCode::Char('k'),
        WorkspaceAction::FocusDown => KeyCode::Char('j'),
        WorkspaceAction::ResizeLeft(_) => KeyCode::Char('H'),
        WorkspaceAction::ResizeRight(_) => KeyCode::Char('L'),
        WorkspaceAction::ResizeUp(_) => KeyCode::Char('K'),
        WorkspaceAction::ResizeDown(_) => KeyCode::Char('J'),
        WorkspaceAction::NextTab => KeyCode::Char('n'),
        WorkspaceAction::PrevTab => KeyCode::Char('p'),
        WorkspaceAction::NewTab => KeyCode::Char('c'),
        WorkspaceAction::CloseTab => KeyCode::Char('&'),
        WorkspaceAction::ClosePane => KeyCode::Char('x'),
        WorkspaceAction::ZoomPane => KeyCode::Char('z'),
        WorkspaceAction::NewTerminal => KeyCode::Char('t'),
        WorkspaceAction::Detach => KeyCode::Char('d'),
        WorkspaceAction::Equalize => KeyCode::Char('='),
    };
    assert(spec_workspace_action(c) == Some(a));
}

/// The tab keys go opposite ways: `n` to the next tab, `p` to the previous
/// one. The vim keys and the arrows focus the same neighbour, and the
/// capital vim keys resize towards it.
pub proof fn law_direction_keys()
    ensures
        spec_workspace_action(KeyCode::Char('n')) == Some(WorkspaceAction::NextTab),
        spec_workspace_action(KeyCode::Char('p')) == Some(WorkspaceAction::PrevTab),
        spec_workspace_action(KeyCode::Char('h')) == spec_workspace_action(KeyCode::Left),
        spec_workspace_action(KeyCode::Char('j')) == spec_workspace_action(KeyCode::Down),
        spec_workspace_action(KeyCode::Char('k')) == spec_workspace_action(KeyCode::Up),
        spec_workspace_action(KeyCode::Char('l')) == spec_workspace_action(KeyCode::Right),
        spec_workspace_action(KeyCode::Left) == Some(WorkspaceAction::FocusLeft),
        spec_workspace_action(KeyCode::Down) == Some(WorkspaceAction::FocusDown),
        spec_workspace_action(KeyCode::Up) == Some(WorkspaceAction::FocusUp),
        spec_workspace_action(KeyCode::Right) == Some(WorkspaceAction::FocusRight),
        spec_workspace_action(KeyCode::Char('H')) == Some(WorkspaceAction::ResizeLeft(1)),
        spec_workspace_action(KeyCode::Char('J')) == Some(WorkspaceAction::ResizeDown(1)),
        spec_workspace_action(KeyCode::Char('K')) == Some(WorkspaceAction::ResizeUp(1)),
        spec_workspace_action(KeyCode::Char('L')) == Some(WorkspaceAction::ResizeRight(1)),
{
}

} // verus!
