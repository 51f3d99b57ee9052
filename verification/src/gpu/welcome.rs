use vstd::prelude::*;

use crate::event::{KeyCode, KeyEvent, Modifiers};
use crate::text::strs;

verus! {

/// What the welcome screen asks the application to do.
#[derive(Debug, Clone)]
pub enum WelcomeAction {
    Nothing,
    OpenProject(String),
    OpenFolderPicker,
    Quit,
    /// A project was removed from the recent list, which is to be saved.
    SaveRecent,
}

/// The welcome screen's list of recent projects (their paths), the selected
/// entry and the first entry shown.
#[derive(Debug, Clone)]
pub struct WelcomeScreen {
    pub recent: Vec<String>,
    pub selected: usize,
    pub scroll_offset: usize,
    pub hover_index: Option<usize>,
}

/// The state the welcome screen's keys act on.
pub struct WelcomeState {
    pub recent: Seq<Seq<char>>,
    pub selected: int,
    pub scroll_offset: int,
}

/// The action, with the project path an open carries.
pub enum WelcomeOutcome {
    Nothing,
    Open(Seq<char>),
    Picker,
    Quit,
    Save,
}

/// The scroll offset after the selection moved up past the first visible
/// entry.
pub open spec fn scrolled_to(selected: int, scroll_offset: int) -> int {
    if selected < scroll_offset {
        selected
    } else {
        scroll_offset
    }
}

pub open spec fn with_selected(s: WelcomeState, selected: int) -> WelcomeState {
    WelcomeState {
        selected,
        scroll_offset: scrolled_to(selected, s.scroll_offset),
        ..s
    }
}

/// What a key does on the welcome screen.
pub open spec fn welcome_step(s: WelcomeState, key: KeyEvent) -> (WelcomeState, WelcomeOutcome) {
    let count = s.recent.len() as int;
    match key.code {
        KeyCode::Char('q') => (s, WelcomeOutcome::Quit),
        KeyCode::Char('o') => (s, WelcomeOutcome::Picker),
        KeyCode::Char('j') | KeyCode::Down => if count > 0 {
            let next = if s.selected + 1 < count - 1 {
                s.selected + 1
            } else {
                count - 1
            };
            (with_selected(s, next), WelcomeOutcome::Nothing)
        } else {
            (s, WelcomeOutcome::Nothing)
        },
        KeyCode::Char('k') | KeyCode::Up => if count > 0 {
            let next = if s.selected > 0 {
                s.selected - 1
            } else {
                0
            };
            (with_selected(s, next), WelcomeOutcome::Nothing)
        } else {
            (s, WelcomeOutcome::Nothing)
        },
        KeyCode::Enter | KeyCode::Char('l') => if count > 0 && s.selected < count {
            (s, WelcomeOutcome::Open(s.recent[s.selected]))
        } else {
            (s, WelcomeOutcome::Nothing)
        },
        KeyCode::Char('d') => if count > 0 && s.selected < count {
            let rest = s.recent.remove(s.selected);
            let selected = if s.selected >= rest.len() && s.selected > 0 {
                s.selected - 1
            } else {
                s.selected
            };
            (WelcomeState { recent: rest, selected, ..s }, WelcomeOutcome::Save)
        } else {
            (s, WelcomeOutcome::Nothing)
        },
        KeyCode::Char('g') => (WelcomeState { selected: 0, scroll_offset: 0, ..s }, WelcomeOutcome::Nothing),
        KeyCode::Char('G') => if key.modifiers.spec_contains(Modifiers(4)) && count > 0 {
            (with_selected(s, count - 1), WelcomeOutcome::Nothing)
        } else {
            (s, WelcomeOutcome::Nothing)
        },
        _ => (s, WelcomeOutcome::Nothing),
    }
}

/// The key moves the selection down.
pub open spec fn moves_down(key: KeyEvent) -> bool {
    key.code == KeyCode::Char('j') || key.code == KeyCode::Down
}

pub open spec fn outcome_of(a: WelcomeAction) -> WelcomeOutcome {
    match a {
        WelcomeAction::Nothing => WelcomeOutcome::Nothing,
        WelcomeAction::OpenProject(p) => WelcomeOutcome::Open(p@),
        WelcomeAction::OpenFolderPicker => WelcomeOutcome::Picker,
        WelcomeAction::Quit => WelcomeOutcome::Quit,
        WelcomeAction::SaveRecent => WelcomeOutcome::Save,
    }
}

impl WelcomeScreen {
    pub open spec fn state(self) -> WelcomeState {
        WelcomeState {
            recent: strs(self.recent@),
            selected: self.selected as int,
            scroll_offset: self.scroll_offset as int,
        }
    }

    /// A welcome screen over the given recent projects, the first one
    /// selected.
    pub fn new(recent: Vec<String>) -> (w: WelcomeScreen)
        ensures
            w.recent@ == recent@,
            w.selected == 0,
            w.scroll_offset == 0,
            w.hover_index is None,
    {
        WelcomeScreen { recent, selected: 0, scroll_offset: 0, hover_index: None }
    }

    /// Handle a key: move the selection, open, remove or pick a project, or
    /// quit. Removing a project asks for the recent list to be saved.
    pub fn handle_key(&mut self, key: KeyEvent) -> (a: WelcomeAction)
        requires
            moves_down(key) ==> old(self).selected < usize::MAX,
        ensures
            (final(self).state(), outcome_of(a)) == welcome_step(old(self).state(), key),
            final(self).hover_index == old(self).hover_index,
    {
        let count = self.recent.len();
        match key.code {
            KeyCode::Char('q') => {
                return WelcomeAction::Quit;
            },
            KeyCode::Char('o') => {
                return WelcomeAction::OpenFolderPicker;
            },
            KeyCode::Char('j') | KeyCode::Down => {
                if count > 0 {
                    let next = self.selected + 1;
                    self.selected = if next < count - 1 {
                        next
                    } else {
                        count - 1
                    };
                    self.ensure_visible();
                }
            },
            KeyCode::Char('k') | KeyCode::Up => {
                if count > 0 {
                    self.selected = if self.selected > 0 {
                        self.selected - 1
                    } else {
                        0
                    };
                    self.ensure_visible();
                }
            },
            KeyCode::Enter | KeyCode::Char('l') => {
                if count > 0 && self.selected < count {
                    let path = self.recent[self.selected].clone();
                    return WelcomeAction::OpenProject(path);
                }
            },
            KeyCode::Char('d') => {
                if count > 0 && self.selected < count {
                    let ghost before = self.recent@;
                    self.recent.remove(self.selected);
                    assert(strs(self.recent@) =~= strs(before).remove(self.selected as int));
                    if self.selected >= self.recent.len() && self.selected > 0 {
                        self.selected = self.selected - 1;
                    }
                    return WelcomeAction::SaveRecent;
                }
            },
            KeyCode::Char('g') => {
                self.selected = 0;
                self.scroll_offset = 0;
            },
            KeyCode::Char('G') => {
                if key.modifiers.contains(Modifiers::SHIFT()) && count > 0 {
                    self.selected = count - 1;
                    self.ensure_visible();
                }
            },
            _ => {},
        }
        WelcomeAction::Nothing
    }

    fn ensure_visible(&mut self)
        ensures
            final(self).scroll_offset == scrolled_to(old(self).selected as int, old(self).scroll_offset as int),
            final(self).selected == old(self).selected,
            final(self).recent == old(self).recent,
            final(self).hover_index == old(self).hover_index,
    {
        if self.selected < self.scroll_offset {
            self.scroll_offset = self.selected;
        }
    }

    /// Scroll so that the selected entry is among the `visible_count` shown.
    pub fn ensure_visible_with_layout(&mut self, visible_count: usize)
        requires
            scrolled_to(old(self).selected as int, old(self).scroll_offset as int) + visible_count
                <= usize::MAX,
            old(self).selected >= scrolled_to(old(self).selected as int, old(self).scroll_offset as int)
                + visible_count ==> old(self).selected - visible_count + 1 <= usize::MAX,
        ensures
            final(self).selected == old(self).selected,
            final(self).recent == old(self).recent,
            final(self).hover_index == old(self).hover_index,
            final(self).scroll_offset == ({
                let s = scrolled_to(old(self).selected as int, old(self).scroll_offset as int);
                if old(self).selected >= s + visible_count {
                    old(self).selected - visible_count + 1
                } else {
                    s
                }
            }),
    {
        if self.selected < self.scroll_offset {
            self.scroll_offset = self.selected;
        }
        if self.selected >= self.scroll_offset + visible_count {
            self.scroll_offset = self.selected - visible_count + 1;
        }
    }
}

/// The selection points into the list, or is at the top of an empty list.
pub open spec fn selection_in_range(s: WelcomeState) -> bool {
    (s.recent.len() == 0 && s.selected == 0) || (0 <= s.selected < s.recent.len())
}

/// Every key keeps the selection within the list of recent projects, also
/// when it removes the selected project.
pub proof fn law_welcome_selection_in_range(s: WelcomeState, key: KeyEvent)
    requires
        selection_in_range(s),
    ensures
        selection_in_range(welcome_step(s, key).0),
{
}

} // verus!
