use vstd::prelude::*;

verus! {

/// Window creation and management: the native window lives in the
/// windowing layer.
pub struct KodeWindow {
    _placeholder: (),
}

impl KodeWindow {
    pub fn new() -> Self {
        KodeWindow { _placeholder: () }
    }
}

impl Default for KodeWindow {
    fn default() -> Self {
        KodeWindow::new()
    }
}

} // verus!
