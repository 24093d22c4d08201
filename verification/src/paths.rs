//! The program's own data directory.

use vstd::prelude::*;

verus! {

/// The name of the data directory under the user's local application data.
/// Every file of the program lives there; the name is written only here.
pub const APP_DIR: &'static str = "BootFlow";

} // verus!
