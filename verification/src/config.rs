//! The loop's configuration: which topics to listen and publish on.

use vstd::prelude::*;

verus! {

/// The two configurable topic names: where the device expects commands and
/// where it mirrors status changes.
pub struct Args {
    /// Topic where the device expects commands on.
    pub command_topic: String,
    /// Topic where the device publishes status changes on.
    pub status_topic: String,
}

impl Default for Args {
    /// The stock topic names used when none are configured.
    fn default() -> (a: Args)
        ensures
            a.command_topic@ == "werkstatt/blink1/cmnd"@,
            a.status_topic@ == "werkstatt/blink1/status"@,
    {
        Args {
            command_topic: "werkstatt/blink1/cmnd".to_owned(),
            status_topic: "werkstatt/blink1/status".to_owned(),
        }
    }
}

} // verus!
