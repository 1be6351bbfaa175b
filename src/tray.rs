use vstd::prelude::*;

verus! {

/// Requests from the system tray to the application.
#[derive(Debug, Clone, Copy, PartialEq, Eq, Structural)]
pub enum TrayCommand {
    /// Show the main window.
    Show,
    /// Quit the application.
    Quit,
}

} // verus!
