//! The user's settings. There is one: whether every boot is recorded.
//!
//! Recording needs an entry that starts the program at logon, which puts
//! something into the user's system; so it is off unless the user turns it
//! on, and a settings file that cannot be read means off, never on.

use vstd::prelude::*;

verus! {

/// The version of the settings file's layout.
pub const SETTINGS_SCHEMA_VERSION: u32 = 1;

/// The settings file, in the program's data directory.
pub const SETTINGS_FILE: &'static str = "settings.json";

#[derive(Debug, Clone, Copy, PartialEq, Eq, Structural)]
pub struct Settings {
    pub schema_version: u32,
    /// Whether every boot is recorded. Off by default.
    pub boot_recording: bool,
}

impl Default for Settings {
    /// The current layout, with recording off.
    fn default() -> (r: Settings)
        ensures
            r.schema_version == SETTINGS_SCHEMA_VERSION,
            !r.boot_recording,
    {
        Settings { schema_version: SETTINGS_SCHEMA_VERSION, boot_recording: false }
    }
}

impl Settings {
    /// Settings read from a file, made current: a file of a later layout is
    /// not guessed at and gives the defaults; an older one is taken as it
    /// is, under the current layout number.
    pub fn sanitized(self) -> (r: Settings)
        ensures
            r.schema_version == SETTINGS_SCHEMA_VERSION,
            r.boot_recording == (self.schema_version <= SETTINGS_SCHEMA_VERSION && self.boot_recording),
    {
        if self.schema_version > SETTINGS_SCHEMA_VERSION {
            return Settings::default();
        }
        Settings { schema_version: SETTINGS_SCHEMA_VERSION, boot_recording: self.boot_recording }
    }
}

/// The settings in force, given what could be read from the file: the
/// defaults when nothing could be read, else what was read, made current.
pub fn from_stored(read: Option<Settings>) -> (r: Settings)
    ensures
        r.schema_version == SETTINGS_SCHEMA_VERSION,
        r.boot_recording == match read {
            Some(s) => s.schema_version <= SETTINGS_SCHEMA_VERSION && s.boot_recording,
            None => false,
        },
{
    match read {
        Some(s) => s.sanitized(),
        None => Settings::default(),
    }
}

/// What bringing the system in line with the settings asks for.
#[derive(Debug, Clone, Copy, PartialEq, Eq, Structural)]
pub enum Reconcile {
    /// Recording is on: nothing is removed here.
    Nothing,
    /// Recording is off: both logon entries are removed, also those that an
    /// older version registered without asking.
    RemoveEntries,
}

/// With recording off, the logon entries are removed; with it on, nothing
/// is done here.
pub fn reconcile(s: &Settings) -> (r: Reconcile)
    ensures
        r == (if s.boot_recording { Reconcile::Nothing } else { Reconcile::RemoveEntries }),
{
    if s.boot_recording {
        Reconcile::Nothing
    } else {
        Reconcile::RemoveEntries
    }
}

} // verus!
