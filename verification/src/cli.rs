use vstd::prelude::*;

verus! {

/// Command-line arguments of the editor.
#[derive(Debug, Clone)]
pub struct Args {
    /// File(s) to open.
    pub files: Vec<String>,
    /// Use the terminal front end instead of the GPU one.
    pub tui: bool,
    /// Path to the configuration file.
    pub config: Option<String>,
    /// Restore the previous session.
    pub restore: bool,
}

} // verus!
