//! Whether problems the user can do something about are shown as desktop
//! notifications. Sending them belongs to the application.

use vstd::prelude::*;

verus! {

/// The notification switch; warnings are still logged when it is off.
pub struct Notifications {
    pub enabled: bool,
}

impl Notifications {
    /// Notifications start enabled.
    pub fn new() -> (res: Self)
        ensures
            res.enabled,
    {
        Notifications { enabled: true }
    }

    /// Turns notifications on or off.
    pub fn set_enabled(&mut self, enabled: bool)
        ensures
            final(self).enabled == enabled,
    {
        self.enabled = enabled;
    }

    /// Whether a warning is to be shown as a notification.
    pub fn show(&self) -> (res: bool)
        ensures
            res == self.enabled,
    {
        self.enabled
    }
}

} // verus!
