//! The shell's persisted preferences.

use vstd::prelude::*;

verus! {

/// What the shell remembers between runs.
#[derive(Debug, Clone, Copy, PartialEq, Eq, Structural)]
pub struct DeemakConfig {
    /// Which of the bundled fonts the shell draws with.
    pub font_index: usize,
}

impl Default for DeemakConfig {
    /// The out-of-the-box preferences: the first bundled font.
    fn default() -> (r: DeemakConfig)
        ensures
            r.font_index == 0,
    {
        DeemakConfig { font_index: 0 }
    }
}

} // verus!
