use vibeking::audio::{
    cached_input_devices, drop_stream_after_take, finalize_start, is_substantial, keep_recovery_audio, needs_reopen,
    pick_input_device, sample_to_ms, should_close_idle, DeviceChoice, MicResolution, StartError, StreamWatchdog,
    MAX_REBUILDS_PER_RECORDING,
};
use vibeking::input_device_cache::{same_names, InputDeviceCache};

fn s(v: &[&str]) -> Vec<String> {
    v.iter().map(|x| x.to_string()).collect()
}

#[test]
fn sample_durations() {
    assert_eq!(sample_to_ms(48_000, 48_000, 1), 1_000);
    assert_eq!(sample_to_ms(96_000, 48_000, 2), 1_000);
    assert_eq!(sample_to_ms(100, 0, 1), 0);
    assert_eq!(sample_to_ms(100, 16_000, 0), 0);
    assert_eq!(sample_to_ms(8_000, 16_000, 1), 500);
}

#[test]
fn device_choice() {
    let devices = s(&["MacBook Microphone", "AirPods", "AirPods"]);
    assert_eq!(pick_input_device(Some(" AirPods "), &devices), DeviceChoice::Named(1));
    assert_eq!(pick_input_device(Some("USB"), &devices), DeviceChoice::SystemDefault { fell_back: true });
    assert_eq!(pick_input_device(Some("   "), &devices), DeviceChoice::SystemDefault { fell_back: false });
    assert_eq!(pick_input_device(None, &devices), DeviceChoice::SystemDefault { fell_back: false });
}

#[test]
fn reopen_on_device_change() {
    assert!(needs_reopen(None, &None));
    assert!(!needs_reopen(Some(&None), &None));
    assert!(!needs_reopen(Some(&Some("A".to_string())), &Some("A".to_string())));
    assert!(needs_reopen(Some(&Some("A".to_string())), &Some("B".to_string())));
    assert!(needs_reopen(Some(&None), &Some("B".to_string())));
}

#[test]
fn watchdog_rebuilds_a_dead_stream_up_to_the_limit() {
    let mut w = StreamWatchdog::arm(0);
    assert!(!w.poll(0, 2_000));
    assert!(w.poll(0, 2_501));
    assert_eq!(w.rebuilds, 1);
    // The fresh stream gets a full window.
    assert!(!w.poll(0, 4_000));
    // Audio flows: noted, no rebuild.
    assert!(!w.poll(7, 4_200));
    assert_eq!(w.last_live_seq, 7);
    assert!(w.poll(7, 6_800));
    assert!(w.poll(7, 9_400));
    assert_eq!(w.rebuilds, MAX_REBUILDS_PER_RECORDING);
    assert!(!w.poll(7, 20_000));
}

#[test]
fn idle_close_and_take_judgement() {
    assert!(should_close_idle(true, false, false, 5_001));
    assert!(!should_close_idle(true, false, false, 5_000));
    assert!(!should_close_idle(true, true, false, 60_000));
    assert!(!should_close_idle(true, false, true, 60_000));
    assert!(!should_close_idle(false, false, false, 60_000));
    assert!(is_substantial(48_000, 48_000, 1));
    assert!(!is_substantial(47_999, 48_000, 1));
    assert!(is_substantial(96_000, 48_000, 2));
    assert!(keep_recovery_audio(10, true, 150));
    assert!(!keep_recovery_audio(0, true, 150));
    assert!(!keep_recovery_audio(10, true, 250));
    assert!(drop_stream_after_take(true, false, true, 5_000));
    assert!(drop_stream_after_take(true, false, false, 100));
    assert!(!drop_stream_after_take(true, true, true, 100));
    assert!(!drop_stream_after_take(false, false, true, 100));
}

#[test]
fn start_outcomes() {
    let res = MicResolution { requested: Some("AirPods".to_string()), actual: None, fell_back: true };
    match finalize_start(Some(Ok(res))) {
        Ok(m) => assert!(m.fell_back && m.requested.as_deref() == Some("AirPods")),
        Err(e) => panic!("{:?}", e),
    }
    assert!(matches!(finalize_start(Some(Err("busy".to_string()))), Err(StartError::Device(m)) if m == "busy"));
    assert!(matches!(finalize_start(None), Err(StartError::ThreadGone)));
}

#[test]
fn unchanged_devices_do_not_trigger_refresh_event_loops() {
    let mut cache = InputDeviceCache::new();
    assert!(cache.begin_scan());
    // An unchanged (empty) device list announces nothing.
    assert_eq!(cache.finish_scan(Some(Vec::new())), None);
    assert!(cache.snapshot().is_empty());
}

#[test]
fn second_scan_is_refused_while_one_runs() {
    let mut cache = InputDeviceCache::new();
    assert!(cache.begin_scan());
    assert_eq!(cache.finish_scan(Some(s(&["Known microphone"]))), Some(s(&["Known microphone"])));
    assert!(cache.begin_scan());
    // Another startup/focus event while the driver hangs: no duplicate scan,
    // and readers still see the known list.
    assert!(!cache.begin_scan());
    assert_eq!(cache.snapshot(), s(&["Known microphone"]));
    assert_eq!(cache.finish_scan(Some(s(&["New microphone"]))), Some(s(&["New microphone"])));
    assert_eq!(cached_input_devices(&cache), s(&["New microphone"]));
    // A failed discovery keeps the list and frees the claim.
    assert!(cache.begin_scan());
    assert_eq!(cache.finish_scan(None), None);
    assert_eq!(cache.snapshot(), s(&["New microphone"]));
    assert!(cache.begin_scan());
    cache.abort_scan();
    assert!(cache.begin_scan());
}

#[test]
fn name_lists_compare() {
    assert!(same_names(&s(&["a", "b"]), &s(&["a", "b"])));
    assert!(!same_names(&s(&["a", "b"]), &s(&["b", "a"])));
    assert!(!same_names(&s(&["a"]), &s(&["a", "b"])));
    assert!(same_names(&[], &[]));
}
