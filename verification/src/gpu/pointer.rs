//! What a mouse click or a wheel turn over an editor pane does, once the
//! pixel position has been turned into a text line and column.

use vstd::prelude::*;
use crate::editor::buffer::{line_len_of, Buffer};
use crate::editor::rope::{line_of, rope_line_count};

verus! {

/// The first visible line after turning the wheel by `lines` (negative:
/// towards the top) over `count` lines whose first visible line was
/// `current`: it moves by `lines` and stays between 0 and the last line.
pub open spec fn wheel_offset(current: int, lines: int, count: int) -> int {
    let last = if count > 0 { count - 1 } else { 0 };
    let moved = current + lines;
    if moved < 0 {
        0
    } else if moved > last {
        last
    } else {
        moved
    }
}

/// Scrolls a list of `count` lines by `lines` from the offset `current`.
pub fn wheel_scroll(current: usize, lines: i32, count: usize) -> (r: usize)
    ensures
        r == wheel_offset(current as int, lines as int, count as int),
{
    let last: usize = if count > 0 { count - 1 } else { 0 };
    if lines < 0 {
        let up: usize = if lines == i32::MIN { 2147483648usize } else { (-lines) as usize };
        if up >= current {
            0
        } else if current - up > last {
            last
        } else {
            current - up
        }
    } else {
        let down = lines as usize;
        if current >= last || last - current <= down {
            last
        } else {
            current + down
        }
    }
}

/// Where a click on text line `line`, column `col` puts the cursor: the
/// line is kept within the buffer and the column within that line.
pub fn click_target(buffer: &Buffer, line: usize, col: usize) -> (r: (usize, usize))
    ensures
        r.0 == (if line < rope_line_count(buffer@) { line as int } else { rope_line_count(buffer@) - 1 }),
        r.1 == (if col < line_len_of(line_of(buffer@, r.0 as nat)) { col as nat } else {
            line_len_of(line_of(buffer@, r.0 as nat))
        }),
{
    let last = buffer.line_count() - 1;
    let target_line = if line < last { line } else { last };
    let len = buffer.line_len(target_line);
    let target_col = if col < len { col } else { len };
    (target_line, target_col)
}

} // verus!
