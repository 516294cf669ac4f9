//! What the tray menu can ask for.

use vstd::prelude::*;

verus! {

/// A request from the tray menu.
#[derive(Debug, Clone, Copy, PartialEq, Eq, Structural)]
pub enum TrayAction {
    CaptureRegion,
    CaptureFullScreen,
    Quit,
}

} // verus!
