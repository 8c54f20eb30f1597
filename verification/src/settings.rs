//! User settings. Today they hold one switch: whether Mganga may check for
//! updates. A missing or damaged settings file means the defaults.

use vstd::prelude::*;

verus! {

#[derive(Clone, Copy, PartialEq, Eq, Debug, Structural)]
pub struct Settings {
    /// When true (the default), Mganga checks for a newer version in the
    /// background. The user's one off switch lives here.
    pub auto_update_check: bool,
}

impl Default for Settings {
    fn default() -> (r: Self)
        ensures
            r.auto_update_check,
    {
        Settings { auto_update_check: true }
    }
}

/// The settings in force: what the file held when it could be read and
/// understood, the defaults otherwise.
pub fn settings_or_default(read: Option<Settings>) -> (r: Settings)
    ensures
        r == match read {
            Some(s) => s,
            None => Settings { auto_update_check: true },
        },
{
    match read {
        Some(s) => s,
        None => Settings::default(),
    }
}

/// The settings with the background update check switched on or off.
pub fn with_auto_update_check(s: Settings, enabled: bool) -> (r: Settings)
    ensures
        r.auto_update_check == enabled,
{
    Settings { auto_update_check: enabled, ..s }
}

} // verus!
