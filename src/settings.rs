use vstd::prelude::*;

verus! {

/// Settings that persist across restarts.
#[derive(Debug, Clone, Copy, PartialEq, Eq, Structural)]
pub struct Settings {
    /// Whether to start minimized to the system tray.
    pub start_minimized: bool,
}

impl Default for Settings {
    fn default() -> (r: Settings)
        ensures
            !r.start_minimized,
    {
        Settings { start_minimized: false }
    }
}

} // verus!
