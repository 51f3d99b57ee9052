//! Keyboard input as the windowing layer reports it, and its translation
//! into the editor's key events.

use vstd::prelude::*;

use crate::event::{KeyCode, KeyEvent, Modifiers};
use crate::text::chars_of;

verus! {

/// The named (non-character) keys the windowing layer reports.
#[derive(Debug, Clone, Copy, PartialEq, Eq, Structural)]
pub enum NamedKey {
    Enter,
    Escape,
    Backspace,
    Delete,
    Tab,
    ArrowUp,
    ArrowDown,
    ArrowLeft,
    ArrowRight,
    Home,
    End,
    PageUp,
    PageDown,
    F1,
    F2,
    F3,
    F4,
    F5,
    F6,
    F7,
    F8,
    F9,
    F10,
    F11,
    F12,
    /// Any other named key.
    Other,
}

/// The logical key of a keyboard event.
#[derive(Debug, Clone)]
pub enum LogicalKey {
    /// A key that produces text.
    Character(String),
    Named(NamedKey),
    /// A key the windowing layer could not identify.
    Unidentified,
}

/// The modifier keys held during a keyboard event.
#[derive(Debug, Clone, Copy, PartialEq, Eq, Structural)]
pub struct ModifierState {
    pub control: bool,
    pub alt: bool,
    pub shift: bool,
    pub super_key: bool,
}

/// The editor key code of a named key, if the editor has one.
pub open spec fn named_code(named: NamedKey) -> Option<KeyCode> {
    match named {
        NamedKey::Enter => Some(KeyCode::Enter),
        NamedKey::Escape => Some(KeyCode::Escape),
        NamedKey::Backspace => Some(KeyCode::Backspace),
        NamedKey::Delete => Some(KeyCode::Delete),
        NamedKey::Tab => Some(KeyCode::Tab),
        NamedKey::ArrowUp => Some(KeyCode::Up),
        NamedKey::ArrowDown => Some(KeyCode::Down),
        NamedKey::ArrowLeft => Some(KeyCode::Left),
        NamedKey::ArrowRight => Some(KeyCode::Right),
        NamedKey::Home => Some(KeyCode::Home),
        NamedKey::End => Some(KeyCode::End),
        NamedKey::PageUp => Some(KeyCode::PageUp),
        NamedKey::PageDown => Some(KeyCode::PageDown),
        NamedKey::F1 => Some(KeyCode::F(1)),
        NamedKey::F2 => Some(KeyCode::F(2)),
        NamedKey::F3 => Some(KeyCode::F(3)),
        NamedKey::F4 => Some(KeyCode::F(4)),
        NamedKey::F5 => Some(KeyCode::F(5)),
        NamedKey::F6 => Some(KeyCode::F(6)),
        NamedKey::F7 => Some(KeyCode::F(7)),
        NamedKey::F8 => Some(KeyCode::F(8)),
        NamedKey::F9 => Some(KeyCode::F(9)),
        NamedKey::F10 => Some(KeyCode::F(10)),
        NamedKey::F11 => Some(KeyCode::F(11)),
        NamedKey::F12 => Some(KeyCode::F(12)),
        NamedKey::Other => None,
    }
}

/// The editor key code of a logical key: the first char of a text key, or
/// the code of a named key.
pub open spec fn key_code_of(key: LogicalKey) -> Option<KeyCode> {
    match key {
        LogicalKey::Character(s) => if s@.len() > 0 {
            Some(KeyCode::Char(s@[0]))
        } else {
            None
        },
        LogicalKey::Named(n) => named_code(n),
        LogicalKey::Unidentified => None,
    }
}

pub open spec fn bit(held: bool, b: u8) -> u8 {
    if held {
        b
    } else {
        0
    }
}

/// The editor's modifier set for the held keys.
pub open spec fn modifiers_of(m: ModifierState) -> Modifiers {
    Modifiers(bit(m.control, 1) | bit(m.alt, 2) | bit(m.shift, 4) | bit(m.super_key, 8))
}

fn named_key_code(named: NamedKey) -> (r: Option<KeyCode>)
    ensures
        r == named_code(named),
{
    match named {
        NamedKey::Enter => Some(KeyCode::Enter),
        NamedKey::Escape => Some(KeyCode::Escape),
        NamedKey::Backspace => Some(KeyCode::Backspace),
        NamedKey::Delete => Some(KeyCode::Delete),
        NamedKey::Tab => Some(KeyCode::Tab),
        NamedKey::ArrowUp => Some(KeyCode::Up),
        NamedKey::ArrowDown => Some(KeyCode::Down),
        NamedKey::ArrowLeft => Some(KeyCode::Left),
        NamedKey::ArrowRight => Some(KeyCode::Right),
        NamedKey::Home => Some(KeyCode::Home),
        NamedKey::End => Some(KeyCode::End),
        NamedKey::PageUp => Some(KeyCode::PageUp),
        NamedKey::PageDown => Some(KeyCode::PageDown),
        NamedKey::F1 => Some(KeyCode::F(1)),
        NamedKey::F2 => Some(KeyCode::F(2)),
        NamedKey::F3 => Some(KeyCode::F(3)),
        NamedKey::F4 => Some(KeyCode::F(4)),
        NamedKey::F5 => Some(KeyCode::F(5)),
        NamedKey::F6 => Some(KeyCode::F(6)),
        NamedKey::F7 => Some(KeyCode::F(7)),
        NamedKey::F8 => Some(KeyCode::F(8)),
        NamedKey::F9 => Some(KeyCode::F(9)),
        NamedKey::F10 => Some(KeyCode::F(10)),
        NamedKey::F11 => Some(KeyCode::F(11)),
        NamedKey::F12 => Some(KeyCode::F(12)),
        NamedKey::Other => None,
    }
}

/// Convert a keyboard event into an editor key event: key presses only, of
/// text keys and of the named keys the editor knows, with the modifier keys
/// that were held.
pub fn translate_winit_key(pressed: bool, logical_key: &LogicalKey, modifier_state: ModifierState) -> (r:
    Option<KeyEvent>)
    ensures
        r == (if pressed && key_code_of(*logical_key) is Some {
            Some(KeyEvent { code: key_code_of(*logical_key)->0, modifiers: modifiers_of(modifier_state) })
        } else {
            None
        }),
{
    if !pressed {
        return None;
    }
    let code = match logical_key {
        LogicalKey::Character(c) => {
            let chars = chars_of(c.as_str());
            if chars.len() == 0 {
                return None;
            }
            KeyCode::Char(chars[0])
        },
        LogicalKey::Named(named) => match named_key_code(*named) {
            Some(code) => code,
            None => {
                return None;
            },
        },
        LogicalKey::Unidentified => {
            return None;
        },
    };
    proof {
        assert(forall|x: u8| #[trigger] (x | 0u8) == x) by (bit_vector);
        assert(forall|x: u8| #[trigger] (0u8 | x) == x) by (bit_vector);
    }
    let mut mods = Modifiers::NONE();
    if modifier_state.control {
        mods = mods | Modifiers::CTRL();
    }
    assert(mods.0 == bit(modifier_state.control, 1));
    if modifier_state.alt {
        mods = mods | Modifiers::ALT();
    }
    assert(mods.0 == bit(modifier_state.control, 1) | bit(modifier_state.alt, 2));
    if modifier_state.shift {
        mods = mods | Modifiers::SHIFT();
    }
    assert(mods.0 == bit(modifier_state.control, 1) | bit(modifier_state.alt, 2) | bit(
        modifier_state.shift,
        4,
    ));
    if modifier_state.super_key {
        mods = mods | Modifiers::SUPER();
    }
    Some(KeyEvent::new(code, mods))
}

/// A translated key event holds exactly the modifier keys that were down.
pub proof fn law_modifiers_held(m: ModifierState)
    ensures
        modifiers_of(m).spec_contains(Modifiers(1)) == m.control,
        modifiers_of(m).spec_contains(Modifiers(2)) == m.alt,
        modifiers_of(m).spec_contains(Modifiers(4)) == m.shift,
        modifiers_of(m).spec_contains(Modifiers(8)) == m.super_key,
{
    let (bc, ba, bs, bp) = (bit(m.control, 1), bit(m.alt, 2), bit(m.shift, 4), bit(m.super_key, 8));
    assert(bc == 0 || bc == 1);
    assert(ba == 0 || ba == 2);
    assert(bs == 0 || bs == 4);
    assert(bp == 0 || bp == 8);
    assert((bc == 0 || bc == 1) && (ba == 0 || ba == 2) && (bs == 0 || bs == 4) && (bp == 0 || bp
        == 8) ==> {
        let x = bc | ba | bs | bp;
        &&& (x & 1 == 1) == (bc == 1)
        &&& (x & 2 == 2) == (ba == 2)
        &&& (x & 4 == 4) == (bs == 4)
        &&& (x & 8 == 8) == (bp == 8)
    }) by (bit_vector);
}

} // verus!
