//! The chip bar's window decisions: which footprint it takes when shown,
//! grown or opened for the mode picker, what hiding does when the always-on
//! bar is enabled, and when a display change calls for rebuilding it. The
//! sizes in points and the window calls live with the application.

use vstd::prelude::*;

verus! {

/// The chip bar window's footprints.
#[derive(Debug, Clone, Copy, PartialEq, Eq, Structural)]
pub enum Footprint {
    /// The recording, processing and result surface without the always-on bar.
    Full,
    /// The compact always-on bar.
    Idle,
    /// The always-on bar while the mode picker popover is open.
    IdleTall,
    /// The always-on bar grown for the live transcript and result cards.
    FullPersistent,
}

/// What hiding the chip bar does.
#[derive(Debug, Clone, Copy, PartialEq, Eq, Structural)]
pub enum HideAction {
    /// Fall back to the idle bar and reset its phase.
    ShowIdleBar,
    /// Hide the window.
    Hide,
}

/// The footprint a recording shows: the idle bar's own window when the
/// always-on bar is enabled (so it morphs in place), the full one otherwise.
pub fn show_footprint(persistent_bar: bool) -> (f: Footprint)
    ensures
        f == (if persistent_bar { Footprint::Idle } else { Footprint::Full }),
{
    if persistent_bar { Footprint::Idle } else { Footprint::Full }
}


/// The footprint the frontend's grow request sets: tall or compact with the
/// always-on bar, nothing without it.
pub fn grow_footprint(persistent_bar: bool, tall: bool) -> (f: Option<Footprint>)
    ensures
        f == (if !persistent_bar { None } else if tall { Some(Footprint::FullPersistent) } else { Some(Footprint::Idle) }),
{
    if !persistent_bar {
        None
    } else if tall {
        Some(Footprint::FullPersistent)
    } else {
        Some(Footprint::Idle)
    }
}

/// The footprint while the mode picker opens or closes: only for the idle
/// always-on bar, never during a recording.
pub fn idle_tall_footprint(recording_idle: bool, persistent_bar: bool, tall: bool) -> (f: Option<Footprint>)
    ensures
        f == (if !recording_idle || !persistent_bar { None } else if tall { Some(Footprint::IdleTall) } else { Some(Footprint::Idle) }),
{
    if !recording_idle || !persistent_bar {
        None
    } else if tall {
        Some(Footprint::IdleTall)
    } else {
        Some(Footprint::Idle)
    }
}

/// What hiding does: the always-on bar falls back to the idle bar.
pub fn hide_action(persistent_bar: bool) -> (a: HideAction)
    ensures
        a == (if persistent_bar { HideAction::ShowIdleBar } else { HideAction::Hide }),
{
    if persistent_bar { HideAction::ShowIdleBar } else { HideAction::Hide }
}

/// Bringing the window in line with the always-on setting: nothing during a
/// recording, otherwise the idle bar or a hidden window.
pub fn reconcile_action(recording_idle: bool, persistent_bar: bool) -> (a: Option<HideAction>)
    ensures
        a == spec_reconcile_action(recording_idle, persistent_bar),
{
    if !recording_idle {
        None
    } else {
        Some(hide_action(persistent_bar))
    }
}

/// The action `hide_action` takes.
pub open spec fn hide_action_spec(persistent_bar: bool) -> HideAction {
    if persistent_bar { HideAction::ShowIdleBar } else { HideAction::Hide }
}

/// The action `reconcile_action` takes.
pub open spec fn spec_reconcile_action(recording_idle: bool, persistent_bar: bool) -> Option<HideAction> {
    if !recording_idle { None } else { Some(hide_action_spec(persistent_bar)) }
}

/// Whether the mode picker may open: the idle always-on bar is showing.
pub fn modepicker_allowed(persistent_bar: bool, recording_idle: bool) -> (r: bool)
    ensures
        r == (persistent_bar && recording_idle),
{
    persistent_bar && recording_idle
}

/// Whether a display change rebuilds the chip window: this is the latest
/// notification of its burst, the always-on bar is enabled, and the window
/// is no longer on screen.
pub fn display_recovery_needed(latest: bool, persistent_bar: bool, onscreen: bool) -> (r: bool)
    ensures
        r == (latest && persistent_bar && !onscreen),
{
    latest && persistent_bar && !onscreen
}

/// While the always-on bar is enabled the chip window is never hidden,
/// whatever the recording state: hiding and reconciling both fall back to
/// the idle bar (or leave a recording alone).
pub proof fn law_always_on_bar_never_hidden(recording_idle: bool)
    ensures
        hide_action_spec(true) != HideAction::Hide,
        spec_reconcile_action(recording_idle, true) != Some(HideAction::Hide),
{
}

/// A recording in flight is never resized or hidden by a settings change.
pub proof fn law_reconcile_leaves_recording_alone(persistent_bar: bool)
    ensures
        spec_reconcile_action(false, persistent_bar) is None,
{
}

} // verus!
