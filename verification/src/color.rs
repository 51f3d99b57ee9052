//! Colors written as hex text (`#rrggbb` or `#rrggbbaa`), read into their
//! byte components.

use vstd::prelude::*;
use vstd::string::StringSliceAdditionalSpecFns;

verus! {

/// The value of a hex digit (either case).
pub open spec fn hex_digit(b: u8) -> Option<u8> {
    if 0x30 <= b <= 0x39 {
        Some((b - 0x30) as u8)
    } else if 0x61 <= b <= 0x66 {
        Some((b - 0x61 + 10) as u8)
    } else if 0x41 <= b <= 0x46 {
        Some((b - 0x41 + 10) as u8)
    } else {
        None
    }
}

/// `u8::from_str_radix` in base 16 on a two-byte text: an optional `+`
/// followed by hex digits only.
pub open spec fn hex_pair(b0: u8, b1: u8) -> Option<u8> {
    if b0 == 0x2b {
        hex_digit(b1)
    } else {
        match (hex_digit(b0), hex_digit(b1)) {
            (Some(h), Some(l)) => Some((h * 16 + l) as u8),
            _ => None,
        }
    }
}

/// The text without its leading `#`s.
pub open spec fn strip_hashes(b: Seq<u8>) -> Seq<u8>
    decreases b.len(),
{
    if b.len() > 0 && b[0] == 0x23 {
        strip_hashes(b.drop_first())
    } else {
        b
    }
}

/// The byte pair at `i` as a hex number.
pub open spec fn pair_at(t: Seq<u8>, i: int) -> Option<u8> {
    hex_pair(t[i], t[i + 1])
}

/// The color components of a hex text: three pairs (opaque) or four.
pub open spec fn hex_rgba_of(b: Seq<u8>) -> Option<(u8, u8, u8, u8)> {
    let t = strip_hashes(b);
    if t.len() == 6 {
        match (pair_at(t, 0), pair_at(t, 2), pair_at(t, 4)) {
            (Some(r), Some(g), Some(bl)) => Some((r, g, bl, 255u8)),
            _ => None,
        }
    } else if t.len() == 8 {
        match (pair_at(t, 0), pair_at(t, 2), pair_at(t, 4), pair_at(t, 6)) {
            (Some(r), Some(g), Some(bl), Some(a)) => Some((r, g, bl, a)),
            _ => None,
        }
    } else {
        None
    }
}

/// Byte `k` starts a char, or is the end of the text.
pub open spec fn at_char_start(t: Seq<u8>, k: int) -> bool {
    k == t.len() || (0 <= k < t.len() && !(0x80 <= t[k] <= 0xbf))
}

/// Each two-byte piece is read as text, so its ends must not fall inside a
/// char; a piece is read only once the pieces before it were hex.
pub open spec fn pieces_at_char_starts(b: Seq<u8>) -> bool {
    let t = strip_hashes(b);
    (t.len() == 6 || t.len() == 8) ==> {
        &&& at_char_start(t, 2)
        &&& pair_at(t, 0) is Some ==> at_char_start(t, 4)
        &&& pair_at(t, 0) is Some && pair_at(t, 2) is Some ==> at_char_start(t, 6)
    }
}

fn digit(b: u8) -> (r: Option<u8>)
    ensures
        r == hex_digit(b),
{
    if 0x30 <= b && b <= 0x39 {
        Some(b - 0x30)
    } else if 0x61 <= b && b <= 0x66 {
        Some(b - 0x61 + 10)
    } else if 0x41 <= b && b <= 0x46 {
        Some(b - 0x41 + 10)
    } else {
        None
    }
}

fn pair(t: &[u8], i: usize) -> (r: Option<u8>)
    requires
        i + 1 < t@.len(),
    ensures
        r == pair_at(t@, i as int),
{
    if t[i] == 0x2b {
        return digit(t[i + 1]);
    }
    match (digit(t[i]), digit(t[i + 1])) {
        (Some(h), Some(l)) => Some(h * 16 + l),
        _ => None,
    }
}

/// The color components (red, green, blue, alpha) of a hex color text,
/// after any leading `#`s: six hex digits give an opaque color, eight
/// include the alpha; anything else is no color.
pub fn hex_rgba(hex: &str) -> (r: Option<(u8, u8, u8, u8)>)
    requires
        pieces_at_char_starts(hex.spec_bytes()),
    ensures
        r == hex_rgba_of(hex.spec_bytes()),
{
    let bytes = hex.as_bytes();
    let mut s: usize = 0;
    assert(bytes@.skip(0) =~= bytes@);
    while s < bytes.len() && bytes[s] == 0x23
        invariant
            s <= bytes@.len(),
            strip_hashes(bytes@) == strip_hashes(bytes@.skip(s as int)),
        decreases bytes@.len() - s,
    {
        assert(bytes@.skip(s as int).drop_first() =~= bytes@.skip(s + 1));
        s = s + 1;
    }
    assert(strip_hashes(bytes@) == bytes@.skip(s as int));
    let ghost t = bytes@.skip(s as int);
    let (_, rest) = bytes.split_at(s);
    assert(rest@ =~= t);
    let n = rest.len();
    if n == 6 {
        let r = match pair(rest, 0) {
            Some(v) => v,
            None => {
                return None;
            },
        };
        let g = match pair(rest, 2) {
            Some(v) => v,
            None => {
                return None;
            },
        };
        let b = match pair(rest, 4) {
            Some(v) => v,
            None => {
                return None;
            },
        };
        Some((r, g, b, 255))
    } else if n == 8 {
        let r = match pair(rest, 0) {
            Some(v) => v,
            None => {
                return None;
            },
        };
        let g = match pair(rest, 2) {
            Some(v) => v,
            None => {
                return None;
            },
        };
        let b = match pair(rest, 4) {
            Some(v) => v,
            None => {
                return None;
            },
        };
        let a = match pair(rest, 6) {
            Some(v) => v,
            None => {
                return None;
            },
        };
        Some((r, g, b, a))
    } else {
        None
    }
}

} // verus!
