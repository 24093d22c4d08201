pub mod advise;
pub mod dedupe;
pub mod diag;
pub mod error;
pub mod model;
pub mod paths;
pub mod pipeline;
pub mod scanners;
pub mod settings;
pub mod snapshot;
pub mod text;
pub mod update;

use vstd::prelude::*;
use crate::settings::Settings;

verus! {

/// What starting the program does about the logon entry that records boots.
#[derive(Debug, Clone, Copy, PartialEq, Eq, Structural)]
pub enum MarkerSetup {
    /// Recording is on: make sure one entry exists.
    Register,
    /// Recording is off: remove both entries.
    Remove,
}

/// The logon entry follows the settings: registered when recording is on,
/// removed when it is off (an older version registered it unasked).
pub fn reconcile_boot_marker_autostart(settings: &Settings) -> (r: MarkerSetup)
    ensures
        r == (if settings.boot_recording { MarkerSetup::Register } else { MarkerSetup::Remove }),
{
    if settings.boot_recording {
        MarkerSetup::Register
    } else {
        MarkerSetup::Remove
    }
}

} // verus!
