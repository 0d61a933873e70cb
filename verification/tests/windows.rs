use vibeking::windows::{
    display_recovery_needed, grow_footprint, hide_action, idle_tall_footprint, modepicker_allowed, reconcile_action,
    show_footprint, Footprint, HideAction,
};

#[test]
fn chip_footprints() {
    assert_eq!(show_footprint(true), Footprint::Idle);
    assert_eq!(show_footprint(false), Footprint::Full);
    assert_eq!(grow_footprint(true, true), Some(Footprint::FullPersistent));
    assert_eq!(grow_footprint(true, false), Some(Footprint::Idle));
    assert_eq!(grow_footprint(false, true), None);
    assert_eq!(idle_tall_footprint(true, true, true), Some(Footprint::IdleTall));
    assert_eq!(idle_tall_footprint(true, true, false), Some(Footprint::Idle));
    assert_eq!(idle_tall_footprint(false, true, true), None);
    assert_eq!(idle_tall_footprint(true, false, true), None);
}

#[test]
fn hiding_with_the_always_on_bar() {
    assert_eq!(hide_action(true), HideAction::ShowIdleBar);
    assert_eq!(hide_action(false), HideAction::Hide);
    assert_eq!(reconcile_action(false, true), None);
    assert_eq!(reconcile_action(true, true), Some(HideAction::ShowIdleBar));
    assert_eq!(reconcile_action(true, false), Some(HideAction::Hide));
    assert!(modepicker_allowed(true, true));
    assert!(!modepicker_allowed(true, false));
    assert!(display_recovery_needed(true, true, false));
    assert!(!display_recovery_needed(false, true, false));
    assert!(!display_recovery_needed(true, true, true));
}
