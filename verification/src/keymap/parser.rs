use vstd::prelude::*;

use crate::editor::command::{indent_text, Command};
use crate::event::{KeyCode, KeyEvent, Modifiers};
use crate::keymap::mode::Mode;
use crate::keymap::motion::Motion;
use crate::keymap::operator::Operator;
use crate::keymap::workspace_keys::{
    is_prefix, parse_workspace_key, spec_is_prefix, spec_workspace_action, WorkspaceAction,
};
use crate::text::string_from_chars;

verus! {

/// Result of parsing a key sequence.
#[derive(Debug, Clone)]
pub enum ParseResult {
    /// A complete command was parsed.
    Complete(Action),
    /// More keys are needed (e.g., after 'd', waiting for motion).
    Pending,
    /// Key was not recognized; should be ignored.
    Ignored,
}

/// A resolved action from key input.
#[derive(Debug, Clone)]
pub enum Action {
    Command(Command),
    Motion(Motion),
    OperatorMotion { operator: Operator, motion: Motion, count: usize },
    ChangeMode(Mode),
    RepeatCount(usize),
    CommandLine(String),
    Workspace(WorkspaceAction),
}

/// Stateful key sequence parser.
pub struct KeyParser {
    mode: Mode,
    pending_operator: Option<Operator>,
    count: Option<usize>,
    pending_keys: Vec<KeyEvent>,
    awaiting_workspace_key: bool,
}

/// The abstract state of a [`KeyParser`].
pub struct ParserView {
    pub mode: Mode,
    pub pending_operator: Option<Operator>,
    pub count: Option<usize>,
    pub pending_keys: Seq<KeyEvent>,
    pub awaiting_workspace_key: bool,
}

impl View for KeyParser {
    type V = ParserView;

    closed spec fn view(&self) -> ParserView {
        ParserView {
            mode: self.mode,
            pending_operator: self.pending_operator,
            count: self.count,
            pending_keys: self.pending_keys@,
            awaiting_workspace_key: self.awaiting_workspace_key,
        }
    }
}

pub open spec fn is_ctrl(key: KeyEvent) -> bool {
    key.modifiers.0 & 1u8 == 1u8
}

pub open spec fn is_super(key: KeyEvent) -> bool {
    key.modifiers.0 & 8u8 == 8u8
}

pub open spec fn is_char(key: KeyEvent, c: char) -> bool {
    key.code == KeyCode::Char(c)
}

/// The motion bound to a key in the normal and visual modes.
pub open spec fn spec_key_to_motion(key: KeyEvent) -> Option<Motion> {
    match key.code {
        KeyCode::Char(c) => {
            if c == 'h' {
                Some(Motion::Left)
            } else if c == 'j' {
                Some(Motion::Down)
            } else if c == 'k' {
                Some(Motion::Up)
            } else if c == 'l' {
                Some(Motion::Right)
            } else if c == 'w' {
                Some(Motion::WordForward)
            } else if c == 'b' {
                Some(Motion::WordBackward)
            } else if c == 'e' {
                Some(Motion::WordEnd)
            } else if c == '0' {
                Some(Motion::LineStart)
            } else if c == '$' {
                Some(Motion::LineEnd)
            } else if c == '^' {
                Some(Motion::FirstNonBlank)
            } else if c == 'g' && key.modifiers.0 == 0 {
                Some(Motion::FileStart)
            } else if c == 'G' {
                Some(Motion::FileEnd)
            } else if c == '%' {
                Some(Motion::MatchBracket)
            } else {
                None
            }
        },
        KeyCode::Left => Some(Motion::Left),
        KeyCode::Down => Some(Motion::Down),
        KeyCode::Up => Some(Motion::Up),
        KeyCode::Right => Some(Motion::Right),
        _ => None,
    }
}

pub open spec fn is_ascii_digit(c: char) -> bool {
    '0' <= c && c <= '9'
}

pub open spec fn digit_value(c: char) -> int {
    (c as int) - ('0' as int)
}

/// In normal mode the key extends the count prefix: a digit, where a
/// leading `0` is the line-start motion instead.
pub open spec fn extends_count(v: ParserView, key: KeyEvent) -> bool {
    match key.code {
        KeyCode::Char(c) => is_ascii_digit(c) && (v.count is Some || c != '0'),
        _ => false,
    }
}

/// The count after the digit of `key` is appended to it.
pub open spec fn next_count(v: ParserView, key: KeyEvent) -> int {
    let prev: int = match v.count {
        Some(n) => n as int,
        None => 0,
    };
    match key.code {
        KeyCode::Char(c) => prev * 10 + digit_value(c),
        _ => prev,
    }
}

/// The key reaches the per-mode handler (it is neither consumed by a
/// pending workspace prefix nor a new workspace prefix).
pub open spec fn reaches_mode(v: ParserView, key: KeyEvent) -> bool {
    !v.awaiting_workspace_key && !(v.mode != Mode::Insert && spec_is_prefix(key))
}

/// A key may be parsed unless it would grow the count prefix past the
/// machine's integers.
pub open spec fn parse_requires(v: ParserView, key: KeyEvent) -> bool {
    (reaches_mode(v, key) && v.mode == Mode::Normal && extends_count(v, key)) ==> next_count(
        v,
        key,
    ) <= usize::MAX
}

pub open spec fn with_mode(v: ParserView, m: Mode) -> ParserView {
    ParserView { mode: m, ..v }
}

/// The doubled operator key (`dd`, `yy`, `cc`).
pub open spec fn doubles(op: Operator, key: KeyEvent) -> bool {
    (op == Operator::Delete && is_char(key, 'd')) || (op == Operator::Yank && is_char(key, 'y'))
        || (op == Operator::Change && is_char(key, 'c'))
}

/// With a count above one, `j` and `k` become counted line motions.
pub open spec fn counted_motion(m: Motion, count: int) -> Motion {
    if count > 1 && m == Motion::Down {
        Motion::LineDown(count as usize)
    } else if count > 1 && m == Motion::Up {
        Motion::LineUp(count as usize)
    } else {
        m
    }
}

pub open spec fn motion_or_none(m: Option<Motion>) -> ParseResult {
    match m {
        Some(m) => ParseResult::Complete(Action::Motion(m)),
        None => ParseResult::Ignored,
    }
}

pub open spec fn complete_command(c: Command) -> ParseResult {
    ParseResult::Complete(Action::Command(c))
}

/// Normal mode: count prefix, pending operator, mode switches, operators,
/// simple commands and motions.
pub open spec fn normal_post(v: ParserView, key: KeyEvent, w: ParserView, r: ParseResult) -> bool {
    if extends_count(v, key) {
        w == ParserView { count: Some(next_count(v, key) as usize), ..v } && r is Pending
    } else {
        let cnt: int = match v.count {
            Some(n) => n as int,
            None => 1,
        };
        let w0 = ParserView { count: None, ..v };
        match v.pending_operator {
            Some(op) => {
                &&& w == ParserView { pending_operator: None, ..w0 }
                &&& r == match spec_key_to_motion(key) {
                    Some(m) => ParseResult::Complete(
                        Action::OperatorMotion { operator: op, motion: m, count: cnt as usize },
                    ),
                    None => if doubles(op, key) {
                        complete_command(Command::DeleteLine)
                    } else {
                        ParseResult::Ignored
                    },
                }
            },
            None => {
                if is_char(key, 'i') {
                    w == with_mode(w0, Mode::Insert) && r == ParseResult::Complete(
                        Action::ChangeMode(Mode::Insert),
                    )
                } else if is_char(key, 'a') {
                    w == with_mode(w0, Mode::Insert) && r == complete_command(Command::MoveRight(1))
                } else if is_char(key, 'o') || is_char(key, 'O') {
                    w == with_mode(w0, Mode::Insert) && r == complete_command(Command::NewLine)
                } else if is_char(key, 'v') {
                    w == with_mode(w0, Mode::Visual) && r == ParseResult::Complete(
                        Action::ChangeMode(Mode::Visual),
                    )
                } else if is_char(key, 'V') {
                    w == with_mode(w0, Mode::VisualLine) && r == ParseResult::Complete(
                        Action::ChangeMode(Mode::VisualLine),
                    )
                } else if is_char(key, ':') {
                    w == with_mode(w0, Mode::Command) && r == ParseResult::Complete(
                        Action::ChangeMode(Mode::Command),
                    )
                } else if is_char(key, 'd') {
                    w == ParserView { pending_operator: Some(Operator::Delete), ..w0 } && r is Pending
                } else if is_char(key, 'y') {
                    w == ParserView { pending_operator: Some(Operator::Yank), ..w0 } && r is Pending
                } else if is_char(key, 'c') {
                    w == ParserView {
                        pending_operator: Some(Operator::Change),
                        mode: Mode::Insert,
                        ..w0
                    } && r is Pending
                } else if is_char(key, 'x') {
                    w == w0 && r == complete_command(Command::DeleteForward)
                } else if is_char(key, 'p') {
                    w == w0 && (r matches ParseResult::Complete(Action::Command(Command::Paste(s)))
                        && s@ == Seq::<char>::empty())
                } else if is_char(key, 'u') {
                    w == w0 && r == complete_command(Command::Undo)
                } else if is_char(key, 'r') && is_ctrl(key) {
                    w == w0 && r == complete_command(Command::Redo)
                } else {
                    w == w0 && r == match spec_key_to_motion(key) {
                        Some(m) => ParseResult::Complete(Action::Motion(counted_motion(m, cnt))),
                        None => ParseResult::Ignored,
                    }
                }
            },
        }
    }
}

/// Insert mode: text entry, with Escape back to normal mode.
pub open spec fn insert_post(v: ParserView, key: KeyEvent, w: ParserView, r: ParseResult) -> bool {
    match key.code {
        KeyCode::Escape => w == with_mode(v, Mode::Normal) && r == ParseResult::Complete(
            Action::ChangeMode(Mode::Normal),
        ),
        KeyCode::Char(c) => w == v && if !is_ctrl(key) && !is_super(key) {
            r == complete_command(Command::InsertChar(c))
        } else {
            r is Ignored
        },
        KeyCode::Enter => w == v && r == complete_command(Command::InsertChar('\n')),
        KeyCode::Backspace => w == v && r == complete_command(Command::DeleteBackward),
        KeyCode::Delete => w == v && r == complete_command(Command::DeleteForward),
        KeyCode::Tab => w == v && (r matches ParseResult::Complete(
            Action::Command(Command::InsertText(s)),
        ) && s@ == seq![' ', ' ', ' ', ' ']),
        KeyCode::Left => w == v && r == ParseResult::Complete(Action::Motion(Motion::Left)),
        KeyCode::Right => w == v && r == ParseResult::Complete(Action::Motion(Motion::Right)),
        KeyCode::Up => w == v && r == ParseResult::Complete(Action::Motion(Motion::Up)),
        KeyCode::Down => w == v && r == ParseResult::Complete(Action::Motion(Motion::Down)),
        _ => w == v && r is Ignored,
    }
}

/// Visual modes: Escape leaves, `d` cuts, `y` copies, motions extend.
pub open spec fn visual_post(v: ParserView, key: KeyEvent, w: ParserView, r: ParseResult) -> bool {
    if key.code == KeyCode::Escape {
        w == with_mode(v, Mode::Normal) && r == ParseResult::Complete(
            Action::ChangeMode(Mode::Normal),
        )
    } else if is_char(key, 'd') {
        w == with_mode(v, Mode::Normal) && r == complete_command(Command::Cut)
    } else if is_char(key, 'y') {
        w == with_mode(v, Mode::Normal) && r == complete_command(Command::Copy)
    } else {
        w == v && r == motion_or_none(spec_key_to_motion(key))
    }
}

/// The command line typed so far: the chars of the collected keys.
pub open spec fn command_text(keys: Seq<KeyEvent>) -> Seq<char>
    decreases keys.len(),
{
    if keys.len() == 0 {
        Seq::empty()
    } else {
        let rest = command_text(keys.drop_last());
        match keys.last().code {
            KeyCode::Char(c) => rest.push(c),
            _ => rest,
        }
    }
}

/// Command-line mode: keys are collected until Enter submits them.
pub open spec fn command_post(v: ParserView, key: KeyEvent, w: ParserView, r: ParseResult) -> bool {
    if key.code == KeyCode::Escape {
        w == ParserView { mode: Mode::Normal, pending_keys: Seq::empty(), ..v }
            && r == ParseResult::Complete(Action::ChangeMode(Mode::Normal))
    } else if key.code == KeyCode::Enter {
        w == ParserView { mode: Mode::Normal, pending_keys: Seq::empty(), ..v }
            && (r matches ParseResult::Complete(Action::CommandLine(s)) && s@ == command_text(
            v.pending_keys,
        ))
    } else {
        w == ParserView { pending_keys: v.pending_keys.push(key), ..v } && r is Pending
    }
}

/// Replace mode: one char replaces, then back to normal mode.
pub open spec fn replace_post(v: ParserView, key: KeyEvent, w: ParserView, r: ParseResult) -> bool {
    match key.code {
        KeyCode::Escape => w == with_mode(v, Mode::Normal) && r == ParseResult::Complete(
            Action::ChangeMode(Mode::Normal),
        ),
        KeyCode::Char(c) => w == with_mode(v, Mode::Normal) && r == complete_command(
            Command::InsertChar(c),
        ),
        _ => w == v && r is Ignored,
    }
}

/// The effect of one key on the parser: a pending workspace prefix takes
/// the key as a workspace command; otherwise Ctrl-A (outside insert mode)
/// starts a workspace command; otherwise the current mode decides.
pub open spec fn parse_post(v: ParserView, key: KeyEvent, w: ParserView, r: ParseResult) -> bool {
    if v.awaiting_workspace_key {
        &&& w == ParserView { awaiting_workspace_key: false, ..v }
        &&& r == match spec_workspace_action(key.code) {
            Some(a) => ParseResult::Complete(Action::Workspace(a)),
            None => ParseResult::Ignored,
        }
    } else if v.mode != Mode::Insert && spec_is_prefix(key) {
        w == ParserView { awaiting_workspace_key: true, ..v } && r is Pending
    } else {
        match v.mode {
            Mode::Normal => normal_post(v, key, w, r),
            Mode::Insert => insert_post(v, key, w, r),
            Mode::Visual | Mode::VisualLine | Mode::VisualBlock => visual_post(v, key, w, r),
            Mode::Command => command_post(v, key, w, r),
            Mode::Replace => replace_post(v, key, w, r),
        }
    }
}

/// The state after a mode is set explicitly: nothing pending.
pub open spec fn fresh_state(m: Mode) -> ParserView {
    ParserView {
        mode: m,
        pending_operator: None,
        count: None,
        pending_keys: Seq::empty(),
        awaiting_workspace_key: false,
    }
}

fn is_key_char(key: &KeyEvent, c: char) -> (r: bool)
    ensures
        r == is_char(*key, c),
{
    match key.code {
        KeyCode::Char(k) => k == c,
        _ => false,
    }
}

impl KeyParser {
    /// A parser in insert mode with nothing pending.
    pub fn new() -> (p: KeyParser)
        ensures
            p@ == fresh_state(Mode::Insert),
    {
        KeyParser {
            mode: Mode::Insert,
            pending_operator: None,
            count: None,
            pending_keys: Vec::new(),
            awaiting_workspace_key: false,
        }
    }

    pub fn mode(&self) -> (m: Mode)
        ensures
            m == self@.mode,
    {
        self.mode
    }

    /// Switch mode and drop anything pending.
    pub fn set_mode(&mut self, mode: Mode)
        ensures
            final(self)@ == fresh_state(mode),
    {
        self.mode = mode;
        self.reset();
    }

    /// Feed one key to the parser.
    pub fn parse(&mut self, key: KeyEvent) -> (r: ParseResult)
        requires
            parse_requires(old(self)@, key),
        ensures
            parse_post(old(self)@, key, final(self)@, r),
    {
        if self.awaiting_workspace_key {
            self.awaiting_workspace_key = false;
            if let Some(action) = parse_workspace_key(&key) {
                return ParseResult::Complete(Action::Workspace(action));
            }
            return ParseResult::Ignored;
        }
        if !self.mode.is_insert() && is_prefix(&key) {
            self.awaiting_workspace_key = true;
            return ParseResult::Pending;
        }
        match self.mode {
            Mode::Normal => self.parse_normal(key),
            Mode::Insert => self.parse_insert(key),
            Mode::Visual | Mode::VisualLine | Mode::VisualBlock => self.parse_visual(key),
            Mode::Command => self.parse_command(key),
            Mode::Replace => self.parse_replace(key),
        }
    }

    fn parse_normal(&mut self, key: KeyEvent) -> (r: ParseResult)
        requires
            old(self)@.mode == Mode::Normal,
            extends_count(old(self)@, key) ==> next_count(old(self)@, key) <= usize::MAX,
        ensures
            normal_post(old(self)@, key, final(self)@, r),
    {
        if let KeyCode::Char(c) = key.code {
            if '0' <= c && c <= '9' && (self.count.is_some() || c != '0') {
                let digit: usize = (c as u32 - '0' as u32) as usize;
                let prev: usize = match self.count {
                    Some(n) => n,
                    None => 0,
                };
                self.count = Some(prev * 10 + digit);
                return ParseResult::Pending;
            }
        }
        let count: usize = match self.count {
            Some(n) => n,
            None => 1,
        };
        self.count = None;
        if let Some(op) = self.pending_operator {
            self.pending_operator = None;
            if let Some(motion) = self.key_to_motion(key) {
                return ParseResult::Complete(
                    Action::OperatorMotion { operator: op, motion, count },
                );
            }
            if let KeyCode::Char(c) = key.code {
                let same_op = match op {
                    Operator::Delete => c == 'd',
                    Operator::Yank => c == 'y',
                    Operator::Change => c == 'c',
                    _ => false,
                };
                if same_op {
                    return ParseResult::Complete(Action::Command(Command::DeleteLine));
                }
            }
            return ParseResult::Ignored;
        }
        if is_key_char(&key, 'i') {
            self.mode = Mode::Insert;
            ParseResult::Complete(Action::ChangeMode(Mode::Insert))
        } else if is_key_char(&key, 'a') {
            self.mode = Mode::Insert;
            ParseResult::Complete(Action::Command(Command::MoveRight(1)))
        } else if is_key_char(&key, 'o') || is_key_char(&key, 'O') {
            self.mode = Mode::Insert;
            ParseResult::Complete(Action::Command(Command::NewLine))
        } else if is_key_char(&key, 'v') {
            self.mode = Mode::Visual;
            ParseResult::Complete(Action::ChangeMode(Mode::Visual))
        } else if is_key_char(&key, 'V') {
            self.mode = Mode::VisualLine;
            ParseResult::Complete(Action::ChangeMode(Mode::VisualLine))
        } else if is_key_char(&key, ':') {
            self.mode = Mode::Command;
            ParseResult::Complete(Action::ChangeMode(Mode::Command))
        } else if is_key_char(&key, 'd') {
            self.pending_operator = Some(Operator::Delete);
            ParseResult::Pending
        } else if is_key_char(&key, 'y') {
            self.pending_operator = Some(Operator::Yank);
            ParseResult::Pending
        } else if is_key_char(&key, 'c') {
            self.pending_operator = Some(Operator::Change);
            self.mode = Mode::Insert;
            ParseResult::Pending
        } else if is_key_char(&key, 'x') {
            ParseResult::Complete(Action::Command(Command::DeleteForward))
        } else if is_key_char(&key, 'p') {
            ParseResult::Complete(Action::Command(Command::Paste(String::new())))
        } else if is_key_char(&key, 'u') {
            ParseResult::Complete(Action::Command(Command::Undo))
        } else if is_key_char(&key, 'r') && key.modifiers.contains(Modifiers::CTRL()) {
            ParseResult::Complete(Action::Command(Command::Redo))
        } else if let Some(motion) = self.key_to_motion(key) {
            let motion = if count > 1 {
                match motion {
                    Motion::Down => Motion::LineDown(count),
                    Motion::Up => Motion::LineUp(count),
                    _ => motion,
                }
            } else {
                motion
            };
            ParseResult::Complete(Action::Motion(motion))
        } else {
            ParseResult::Ignored
        }
    }

    fn parse_insert(&mut self, key: KeyEvent) -> (r: ParseResult)
        ensures
            insert_post(old(self)@, key, final(self)@, r),
    {
        match key.code {
            KeyCode::Escape => {
                self.mode = Mode::Normal;
                ParseResult::Complete(Action::ChangeMode(Mode::Normal))
            },
            KeyCode::Char(c) => {
                if !key.modifiers.contains(Modifiers::CTRL()) && !key.modifiers.contains(
                    Modifiers::SUPER(),
                ) {
                    ParseResult::Complete(Action::Command(Command::InsertChar(c)))
                } else {
                    ParseResult::Ignored
                }
            },
            KeyCode::Enter => ParseResult::Complete(Action::Command(Command::InsertChar('\n'))),
            KeyCode::Backspace => ParseResult::Complete(Action::Command(Command::DeleteBackward)),
            KeyCode::Delete => ParseResult::Complete(Action::Command(Command::DeleteForward)),
            KeyCode::Tab => ParseResult::Complete(
                Action::Command(Command::InsertText(indent_text())),
            ),
            KeyCode::Left => ParseResult::Complete(Action::Motion(Motion::Left)),
            KeyCode::Right => ParseResult::Complete(Action::Motion(Motion::Right)),
            KeyCode::Up => ParseResult::Complete(Action::Motion(Motion::Up)),
            KeyCode::Down => ParseResult::Complete(Action::Motion(Motion::Down)),
            _ => ParseResult::Ignored,
        }
    }

    fn parse_visual(&mut self, key: KeyEvent) -> (r: ParseResult)
        ensures
            visual_post(old(self)@, key, final(self)@, r),
    {
        if key.code == KeyCode::Escape {
            self.mode = Mode::Normal;
            ParseResult::Complete(Action::ChangeMode(Mode::Normal))
        } else if is_key_char(&key, 'd') {
            self.mode = Mode::Normal;
            ParseResult::Complete(Action::Command(Command::Cut))
        } else if is_key_char(&key, 'y') {
            self.mode = Mode::Normal;
            ParseResult::Complete(Action::Command(Command::Copy))
        } else if let Some(motion) = self.key_to_motion(key) {
            ParseResult::Complete(Action::Motion(motion))
        } else {
            ParseResult::Ignored
        }
    }

    fn parse_command(&mut self, key: KeyEvent) -> (r: ParseResult)
        ensures
            command_post(old(self)@, key, final(self)@, r),
    {
        if key.code == KeyCode::Escape {
            self.mode = Mode::Normal;
            self.pending_keys.clear();
            ParseResult::Complete(Action::ChangeMode(Mode::Normal))
        } else if key.code == KeyCode::Enter {
            let mut chars: Vec<char> = Vec::new();
            let mut i: usize = 0;
            while i < self.pending_keys.len()
                invariant
                    i <= self.pending_keys@.len(),
                    chars@ == command_text(self.pending_keys@.take(i as int)),
                decreases self.pending_keys@.len() - i,
            {
                assert(self.pending_keys@.take(i + 1).drop_last() == self.pending_keys@.take(
                    i as int,
                ));
                if let KeyCode::Char(c) = self.pending_keys[i].code {
                    chars.push(c);
                }
                i = i + 1;
            }
            assert(self.pending_keys@.take(i as int) == self.pending_keys@);
            let cmd = string_from_chars(&chars);
            self.pending_keys.clear();
            self.mode = Mode::Normal;
            ParseResult::Complete(Action::CommandLine(cmd))
        } else {
            self.pending_keys.push(key);
            ParseResult::Pending
        }
    }

    fn parse_replace(&mut self, key: KeyEvent) -> (r: ParseResult)
        ensures
            replace_post(old(self)@, key, final(self)@, r),
    {
        match key.code {
            KeyCode::Escape => {
                self.mode = Mode::Normal;
                ParseResult::Complete(Action::ChangeMode(Mode::Normal))
            },
            KeyCode::Char(c) => {
                self.mode = Mode::Normal;
                ParseResult::Complete(Action::Command(Command::InsertChar(c)))
            },
            _ => ParseResult::Ignored,
        }
    }

    fn key_to_motion(&self, key: KeyEvent) -> (r: Option<Motion>)
        ensures
            r == spec_key_to_motion(key),
    {
        match key.code {
            KeyCode::Char(c) => {
                if c == 'h' {
                    Some(Motion::Left)
                } else if c == 'j' {
                    Some(Motion::Down)
                } else if c == 'k' {
                    Some(Motion::Up)
                } else if c == 'l' {
                    Some(Motion::Right)
                } else if c == 'w' {
                    Some(Motion::WordForward)
                } else if c == 'b' {
                    Some(Motion::WordBackward)
                } else if c == 'e' {
                    Some(Motion::WordEnd)
                } else if c == '0' {
                    Some(Motion::LineStart)
                } else if c == '$' {
                    Some(Motion::LineEnd)
                } else if c == '^' {
                    Some(Motion::FirstNonBlank)
                } else if c == 'g' && key.modifiers.0 == 0 {
                    Some(Motion::FileStart)
                } else if c == 'G' {
                    Some(Motion::FileEnd)
                } else if c == '%' {
                    Some(Motion::MatchBracket)
                } else {
                    None
                }
            },
            KeyCode::Left => Some(Motion::Left),
            KeyCode::Down => Some(Motion::Down),
            KeyCode::Up => Some(Motion::Up),
            KeyCode::Right => Some(Motion::Right),
            _ => None,
        }
    }

    fn reset(&mut self)
        ensures
            final(self)@ == fresh_state(old(self)@.mode),
    {
        self.pending_operator = None;
        self.count = None;
        self.pending_keys.clear();
        self.awaiting_workspace_key = false;
    }
}

impl Default for KeyParser {
    fn default() -> (p: KeyParser)
        ensures
            p@ == fresh_state(Mode::Insert),
    {
        KeyParser::new()
    }
}

/// A count never turns a vertical motion around: in normal mode with no
/// operator pending, a count `n > 1` followed by a key bound to moving up
/// gives `LineUp(n)`, and one bound to moving down gives `LineDown(n)`.
pub proof fn law_count_keeps_direction(v: ParserView, key: KeyEvent, w: ParserView, r: ParseResult)
    requires
        v.mode == Mode::Normal,
        !v.awaiting_workspace_key,
        v.pending_operator is None,
        v.count matches Some(n) && n > 1,
        spec_key_to_motion(key) == Some(Motion::Up) || spec_key_to_motion(key) == Some(
            Motion::Down,
        ),
        parse_post(v, key, w, r),
    ensures
        spec_key_to_motion(key) == Some(Motion::Up) ==> r == ParseResult::Complete(
            Action::Motion(Motion::LineUp(v.count->0)),
        ),
        spec_key_to_motion(key) == Some(Motion::Down) ==> r == ParseResult::Complete(
            Action::Motion(Motion::LineDown(v.count->0)),
        ),
        w.count is None,
        w.mode == Mode::Normal,
{
}

/// `k` and the up arrow move up, `j` and the down arrow move down, in the
/// normal and visual modes.
pub proof fn law_vertical_keys(m: Modifiers)
    ensures
        spec_key_to_motion(KeyEvent { code: KeyCode::Char('k'), modifiers: m }) == Some(Motion::Up),
        spec_key_to_motion(KeyEvent { code: KeyCode::Up, modifiers: m }) == Some(Motion::Up),
        spec_key_to_motion(KeyEvent { code: KeyCode::Char('j'), modifiers: m }) == Some(
            Motion::Down,
        ),
        spec_key_to_motion(KeyEvent { code: KeyCode::Down, modifiers: m }) == Some(Motion::Down),
{
}

/// Typing a digit from 2 to 9 and then a vertical key in normal mode, with
/// nothing pending, moves that many lines in the key's direction.
pub proof fn law_digit_then_vertical(
    v: ParserView,
    d: char,
    key: KeyEvent,
    w1: ParserView,
    r1: ParseResult,
    w2: ParserView,
    r2: ParseResult,
)
    requires
        v.mode == Mode::Normal,
        !v.awaiting_workspace_key,
        v.pending_operator is None,
        v.count is None,
        '2' <= d <= '9',
        parse_post(v, KeyEvent { code: KeyCode::Char(d), modifiers: Modifiers(0) }, w1, r1),
        spec_key_to_motion(key) == Some(Motion::Up) || spec_key_to_motion(key) == Some(
            Motion::Down,
        ),
        parse_post(w1, key, w2, r2),
    ensures
        r1 is Pending,
        spec_key_to_motion(key) == Some(Motion::Up) ==> r2 == ParseResult::Complete(
            Action::Motion(Motion::LineUp((d as u32 - '0' as u32) as usize)),
        ),
        spec_key_to_motion(key) == Some(Motion::Down) ==> r2 == ParseResult::Complete(
            Action::Motion(Motion::LineDown((d as u32 - '0' as u32) as usize)),
        ),
{
    let dk = KeyEvent { code: KeyCode::Char(d), modifiers: Modifiers(0) };
    assert((0u8 & 1u8) == 0u8) by (bit_vector);
    assert(!spec_is_prefix(dk));
    assert(extends_count(v, dk));
    assert(w1.count == Some(digit_value(d) as usize));
    law_count_keeps_direction(w1, key, w2, r2);
}

} // verus!
