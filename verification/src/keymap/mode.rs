use vstd::prelude::*;

verus! {

/// Vim editing modes.
#[derive(Debug, Clone, Copy, PartialEq, Eq, Structural, Hash)]
pub enum Mode {
    Normal,
    Insert,
    Visual,
    VisualLine,
    VisualBlock,
    Command,
    Replace,
}

#[derive(Debug, Clone, Copy, PartialEq, Eq, Structural)]
pub enum CursorStyle {
    Block,
    Line,
    Underline,
}

impl Mode {
    pub fn is_insert(&self) -> (r: bool)
        ensures
            r == (*self == Mode::Insert),
    {
        matches!(self, Mode::Insert)
    }

    pub fn is_normal(&self) -> (r: bool)
        ensures
            r == (*self == Mode::Normal),
    {
        matches!(self, Mode::Normal)
    }

    pub open spec fn spec_is_visual(self) -> bool {
        self == Mode::Visual || self == Mode::VisualLine || self == Mode::VisualBlock
    }

    pub fn is_visual(&self) -> (r: bool)
        ensures
            r == self.spec_is_visual(),
    {
        matches!(self, Mode::Visual | Mode::VisualLine | Mode::VisualBlock)
    }

    pub open spec fn spec_cursor_style(self) -> CursorStyle {
        match self {
            Mode::Insert | Mode::Command => CursorStyle::Line,
            Mode::Replace => CursorStyle::Underline,
            _ => CursorStyle::Block,
        }
    }

    /// Block in the normal and visual modes, a bar while typing text, an
    /// underline while replacing.
    pub fn cursor_style(&self) -> (r: CursorStyle)
        ensures
            r == self.spec_cursor_style(),
    {
        match self {
            Mode::Normal | Mode::Visual | Mode::VisualLine | Mode::VisualBlock => {
                CursorStyle::Block
            },
            Mode::Insert => CursorStyle::Line,
            Mode::Replace => CursorStyle::Underline,
            Mode::Command => CursorStyle::Line,
        }
    }

    /// The label shown in the status line.
    pub fn display_name(&self) -> (r: &'static str)
        ensures
            *self == Mode::Normal ==> r@ == "NORMAL"@,
            *self == Mode::Insert ==> r@ == "INSERT"@,
            *self == Mode::Visual ==> r@ == "VISUAL"@,
            *self == Mode::VisualLine ==> r@ == "V-LINE"@,
            *self == Mode::VisualBlock ==> r@ == "V-BLOCK"@,
            *self == Mode::Command ==> r@ == "COMMAND"@,
            *self == Mode::Replace ==> r@ == "REPLACE"@,
    {
        match self {
            Mode::Normal => "NORMAL",
            Mode::Insert => "INSERT",
            Mode::Visual => "VISUAL",
            Mode::VisualLine => "V-LINE",
            Mode::VisualBlock => "V-BLOCK",
            Mode::Command => "COMMAND",
            Mode::Replace => "REPLACE",
        }
    }
}

impl Default for Mode {
    fn default() -> (r: Mode)
        ensures
            r == Mode::Normal,
    {
        Mode::Normal
    }
}

} // verus!
