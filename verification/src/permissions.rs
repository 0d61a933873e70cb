//! The permissions the app needs and the settings panes that grant them.

use vstd::prelude::*;
use crate::text::str_eq;

verus! {

/// Which permissions are granted.
#[derive(Debug, Clone, Copy, PartialEq, Eq, Structural)]
pub struct PermissionsStatus {
    pub accessibility: bool,
    pub input_monitoring: bool,
    pub microphone: bool,
}

/// The settings URL of a privacy pane.
pub open spec fn spec_settings_pane_url(pane: Seq<char>) -> Option<Seq<char>> {
    if pane == "accessibility"@ {
        Some("x-apple.systempreferences:com.apple.preference.security?Privacy_Accessibility"@)
    } else if pane == "input-monitoring"@ {
        Some("x-apple.systempreferences:com.apple.preference.security?Privacy_ListenEvent"@)
    } else if pane == "microphone"@ {
        Some("x-apple.systempreferences:com.apple.preference.security?Privacy_Microphone"@)
    } else {
        None
    }
}

/// The settings URL that opens a privacy pane, or the message for an
/// unknown pane.
pub fn settings_pane_url(pane: &str) -> (r: Result<&'static str, String>)
    ensures
        match r {
            Ok(u) => spec_settings_pane_url(pane@) == Some(u@),
            Err(msg) => spec_settings_pane_url(pane@) is None && msg@ == "unknown settings pane: "@ + pane@,
        },
{
    if str_eq(pane, "accessibility") {
        Ok("x-apple.systempreferences:com.apple.preference.security?Privacy_Accessibility")
    } else if str_eq(pane, "input-monitoring") {
        Ok("x-apple.systempreferences:com.apple.preference.security?Privacy_ListenEvent")
    } else if str_eq(pane, "microphone") {
        Ok("x-apple.systempreferences:com.apple.preference.security?Privacy_Microphone")
    } else {
        let mut msg = "unknown settings pane: ".to_string();
        msg.append(pane);
        Err(msg)
    }
}

} // verus!
