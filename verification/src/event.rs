use vstd::prelude::*;

verus! {

/// A key press together with its modifier keys.
#[derive(Debug, Clone, Copy, PartialEq, Eq, Structural, Hash)]
pub struct KeyEvent {
    pub code: KeyCode,
    pub modifiers: Modifiers,
}

impl KeyEvent {
    pub fn new(code: KeyCode, modifiers: Modifiers) -> (k: KeyEvent)
        ensures
            k.code == code,
            k.modifiers == modifiers,
    {
        KeyEvent { code, modifiers }
    }

    /// A key press without modifiers.
    pub fn plain(code: KeyCode) -> (k: KeyEvent)
        ensures
            k.code == code,
            k.modifiers.0 == 0,
    {
        KeyEvent { code, modifiers: Modifiers::NONE() }
    }
}

#[derive(Debug, Clone, Copy, PartialEq, Eq, Structural, Hash)]
pub enum KeyCode {
    Char(char),
    Enter,
    Escape,
    Backspace,
    Delete,
    Tab,
    Up,
    Down,
    Left,
    Right,
    Home,
    End,
    PageUp,
    PageDown,
    F(u8),
}

/// A set of modifier keys, one bit per key.
#[derive(Debug, Clone, Copy, PartialEq, Eq, Structural, Hash)]
pub struct Modifiers(pub u8);

impl Modifiers {
    /// No modifier key.
    #[allow(non_snake_case)]
    pub fn NONE() -> (m: Modifiers)
        ensures
            m.0 == 0,
    {
        Modifiers(0)
    }

    /// The Control key.
    #[allow(non_snake_case)]
    pub fn CTRL() -> (m: Modifiers)
        ensures
            m.0 == 1,
    {
        Modifiers(1)
    }

    /// The Alt (Option) key.
    #[allow(non_snake_case)]
    pub fn ALT() -> (m: Modifiers)
        ensures
            m.0 == 2,
    {
        Modifiers(2)
    }

    /// The Shift key.
    #[allow(non_snake_case)]
    pub fn SHIFT() -> (m: Modifiers)
        ensures
            m.0 == 4,
    {
        Modifiers(4)
    }

    /// The Super (Command / Windows) key.
    #[allow(non_snake_case)]
    pub fn SUPER() -> (m: Modifiers)
        ensures
            m.0 == 8,
    {
        Modifiers(8)
    }

    /// Every key of `other` is held in `self`.
    pub open spec fn spec_contains(self, other: Modifiers) -> bool {
        self.0 & other.0 == other.0
    }

    pub fn contains(self, other: Modifiers) -> (r: bool)
        ensures
            r == self.spec_contains(other),
    {
        self.0 & other.0 == other.0
    }

}

impl core::ops::BitOr for Modifiers {
    type Output = Modifiers;

    fn bitor(self, rhs: Modifiers) -> (r: Modifiers) {
        Modifiers(self.0 | rhs.0)
    }
}

impl vstd::std_specs::ops::BitOrSpecImpl for Modifiers {
    open spec fn obeys_bitor_spec() -> bool {
        true
    }

    open spec fn bitor_req(self, rhs: Modifiers) -> bool {
        true
    }

    open spec fn bitor_spec(self, rhs: Modifiers) -> Modifiers {
        Modifiers(self.0 | rhs.0)
    }
}

/// The union of two modifier sets contains each of them.
pub proof fn law_union_contains(a: Modifiers, b: Modifiers)
    ensures
        Modifiers(a.0 | b.0).spec_contains(a),
        Modifiers(a.0 | b.0).spec_contains(b),
{
    let x = a.0;
    let y = b.0;
    assert((x | y) & x == x) by (bit_vector);
    assert((x | y) & y == y) by (bit_vector);
}

} // verus!

verus! {

#[derive(Debug, Clone, Copy, PartialEq, Eq, Structural)]
pub enum MouseButton {
    Left,
    Right,
    Middle,
}

/// Commands delivered to the editor from the input layer. Paths are carried
/// as their text.
#[derive(Debug, Clone)]
pub enum EditorCommand {
    InsertChar(char),
    NewLine,
    DeleteForward,
    DeleteBackward,
    MoveUp,
    MoveDown,
    MoveLeft,
    MoveRight,
    MoveWordForward,
    MoveWordBackward,
    MoveLineStart,
    MoveLineEnd,
    MoveFileStart,
    MoveFileEnd,
    PageUp,
    PageDown,
    Save,
    Open(String),
    Quit,
    Undo,
    Redo,
    SelectAll,
    Copy,
    Paste(String),
    Cut,
    Find(String),
    Replace { find: String, replace: String },
}

/// Central event type for cross-component communication. Pointer events are
/// consumed by the windowing layer; here they are only marked as such.
#[derive(Debug, Clone)]
pub enum KodeEvent {
    Key(KeyEvent),
    Mouse,
    Resize { width: u32, height: u32 },
    Command(EditorCommand),
    Tick,
    Quit,
}

} // verus!
