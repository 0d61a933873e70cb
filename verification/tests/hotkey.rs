use vibeking::hotkey::{
    handle_event, handle_flags_changed, handle_key_down, key_lookup, modifier_lookup, parse_hotkey, HotkeyEvent,
    HotkeySpec, ESC_KEYCODE, HOLD_THRESHOLD_MS, TAB_KEYCODE,
};
use vibeking::state::{ui_toggle_recording, RecMode, RecSignal};

const RIGHT_CONTROL_FLAG: u64 = 0x0000_2000;

#[test]
fn lookups() {
    assert_eq!(modifier_lookup("right-control"), Some((62, 0x0000_2000)));
    assert_eq!(modifier_lookup("left-option"), Some((58, 0x0000_0020)));
    assert_eq!(modifier_lookup("hyper"), None);
    assert_eq!(key_lookup("k"), Some(40));
    assert_eq!(key_lookup("space"), Some(49));
    assert_eq!(key_lookup("f12"), Some(111));
    assert_eq!(key_lookup("K"), None);
}

#[test]
fn parses_modifier_only_hotkey() {
    assert_eq!(
        parse_hotkey("right-control"),
        HotkeySpec { modifier_mask: 0x0000_2000, keycode: 62, modifier_only: true }
    );
}

#[test]
fn parses_combination_hotkey() {
    assert_eq!(
        parse_hotkey("left-command+left-shift+k"),
        HotkeySpec { modifier_mask: 0x0000_0008 | 0x0000_0002, keycode: 40, modifier_only: false }
    );
}

#[test]
fn unknown_hotkey_falls_back_to_right_control() {
    assert_eq!(
        parse_hotkey("nonsense"),
        HotkeySpec { modifier_mask: 0x0000_2000, keycode: 62, modifier_only: true }
    );
    assert_eq!(parse_hotkey(""), parse_hotkey("right-control"));
}

#[test]
fn quick_tap_toggles_then_press_stops() {
    let hk = parse_hotkey("right-control");
    let mut mode = RecMode::Idle;
    assert_eq!(handle_flags_changed(&mut mode, &hk, 62, RIGHT_CONTROL_FLAG, 1_000), RecSignal::Start);
    assert_eq!(mode, RecMode::Pressed { since_ms: 1_000 });
    assert_eq!(handle_flags_changed(&mut mode, &hk, 62, 0, 1_100), RecSignal::ModeToggle);
    assert_eq!(mode, RecMode::Toggle);
    // Releasing again does nothing; the next press stops.
    assert_eq!(handle_flags_changed(&mut mode, &hk, 62, 0, 2_000), RecSignal::Nothing);
    assert_eq!(handle_flags_changed(&mut mode, &hk, 62, RIGHT_CONTROL_FLAG, 3_000), RecSignal::Stop);
    assert_eq!(mode, RecMode::Idle);
}

#[test]
fn hold_becomes_push_to_talk() {
    let hk = parse_hotkey("right-control");
    let mut mode = RecMode::Idle;
    handle_flags_changed(&mut mode, &hk, 62, RIGHT_CONTROL_FLAG, 0);
    // Still held past the threshold: classified as push-to-talk.
    assert_eq!(
        handle_flags_changed(&mut mode, &hk, 62, RIGHT_CONTROL_FLAG, HOLD_THRESHOLD_MS),
        RecSignal::ModePushToTalk
    );
    assert_eq!(mode, RecMode::PushToTalk);
    assert_eq!(handle_flags_changed(&mut mode, &hk, 62, 0, 5_000), RecSignal::Stop);
    assert_eq!(mode, RecMode::Idle);
}

#[test]
fn late_release_of_unclassified_press_stops() {
    let hk = parse_hotkey("right-control");
    let mut mode = RecMode::Pressed { since_ms: 100 };
    assert_eq!(handle_flags_changed(&mut mode, &hk, 62, 0, 100 + HOLD_THRESHOLD_MS), RecSignal::Stop);
    assert_eq!(mode, RecMode::Idle);
}

#[test]
fn other_modifiers_are_ignored() {
    let hk = parse_hotkey("right-control");
    let mut mode = RecMode::Idle;
    assert_eq!(handle_flags_changed(&mut mode, &hk, 59, 0x0000_0001, 0), RecSignal::Nothing);
    assert_eq!(mode, RecMode::Idle);
}

#[test]
fn combination_hotkey_toggles() {
    let hk = parse_hotkey("left-command+k");
    let mut mode = RecMode::Idle;
    assert_eq!(handle_key_down(&mut mode, &hk, 40, 0x0000_0008), RecSignal::StartToggle);
    assert_eq!(mode, RecMode::Toggle);
    // Without the modifier the key is ignored.
    assert_eq!(handle_key_down(&mut mode, &hk, 40, 0), RecSignal::Nothing);
    assert_eq!(handle_key_down(&mut mode, &hk, 40, 0x0000_0008), RecSignal::Stop);
    assert_eq!(mode, RecMode::Idle);
}

#[test]
fn escape_cancels_only_while_recording() {
    let hk = parse_hotkey("right-control");
    let mut idle = RecMode::Idle;
    assert_eq!(handle_key_down(&mut idle, &hk, ESC_KEYCODE, 0), RecSignal::Nothing);
    let mut rec = RecMode::PushToTalk;
    assert_eq!(handle_key_down(&mut rec, &hk, ESC_KEYCODE, 0), RecSignal::Cancel);
    assert_eq!(rec, RecMode::Idle);
}

#[test]
fn shift_tab_cycles_while_recording() {
    let hk = parse_hotkey("right-control");
    let mut rec = RecMode::Toggle;
    assert_eq!(handle_key_down(&mut rec, &hk, TAB_KEYCODE, 0x0000_0002), RecSignal::CycleRefinement);
    assert_eq!(rec, RecMode::Toggle);
    let mut idle = RecMode::Idle;
    assert_eq!(handle_key_down(&mut idle, &hk, TAB_KEYCODE, 0x0000_0004), RecSignal::Nothing);
}

#[test]
fn capture_mode_swallows_events() {
    let hk = parse_hotkey("right-control");
    let mut mode = RecMode::Idle;
    let ev = HotkeyEvent::FlagsChanged { keycode: 62, flags: RIGHT_CONTROL_FLAG };
    assert_eq!(handle_event(&mut mode, &hk, true, ev, 0), RecSignal::Nothing);
    assert_eq!(mode, RecMode::Idle);
    assert_eq!(handle_event(&mut mode, &hk, false, ev, 0), RecSignal::Start);
    let esc = HotkeyEvent::KeyDown { keycode: ESC_KEYCODE, flags: 0 };
    assert_eq!(handle_event(&mut mode, &hk, false, esc, 10), RecSignal::Cancel);
}

#[test]
fn click_to_record_toggles() {
    let mut mode = RecMode::Idle;
    assert_eq!(ui_toggle_recording(&mut mode), RecSignal::StartToggle);
    assert_eq!(mode, RecMode::Toggle);
    assert_eq!(ui_toggle_recording(&mut mode), RecSignal::Stop);
    assert_eq!(mode, RecMode::Idle);
    let mut held = RecMode::Pressed { since_ms: 3 };
    assert_eq!(ui_toggle_recording(&mut held), RecSignal::Stop);
}
