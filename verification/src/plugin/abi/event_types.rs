//! Known event type strings for plugin subscription.

use vstd::prelude::*;

verus! {

pub const BUFFER_OPEN: &'static str = "buffer_open";

pub const BUFFER_CHANGE: &'static str = "buffer_change";

pub const BUFFER_SAVE: &'static str = "buffer_save";

pub const CURSOR_MOVE: &'static str = "cursor_move";

pub const TICK: &'static str = "tick";

} // verus!
