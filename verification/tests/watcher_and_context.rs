use std::time::Duration;
use vibeking::correction_watcher::{DEFAULT_WATCH_WINDOW_MS, POLL_INTERVAL_MS};
use vibeking::screen_context::MIN_USEFUL_LEN;

#[test]
fn default_watch_window_is_twenty_seconds() {
    assert_eq!(Duration::from_millis(DEFAULT_WATCH_WINDOW_MS), Duration::from_secs(20));
}

#[test]
fn poll_interval_is_below_perception_threshold() {
    // Keep below 300ms so users don't perceive the detection lag.
    assert!(Duration::from_millis(POLL_INTERVAL_MS) <= Duration::from_millis(300));
}

#[test]
fn min_useful_len_is_twenty() {
    // Sanity check on the threshold the AX focused-element fast-path uses.
    assert_eq!(MIN_USEFUL_LEN, 20);
}

use vibeking::correction_watcher::{
    edited_region, locate_paste, should_watch, CorrectionDetectedPayload, WatchState, STABLE_POLLS_BEFORE_DETECT,
};
use vibeking::screen_context::{
    captured_event, is_chrome_role, is_content_container_role, make_capture, needs_window_fallback,
    useful_focused_value, CaptureSource, TraversalState, MAX_DEPTH, MAX_NODES,
};
use vibeking::screen_ocr::{assemble_ocr_text, focused_window_id_for_pid, WindowInfo};
use vibeking::state::CorrectionLearningMode;

#[test]
fn watch_only_when_learning_and_pasted() {
    assert!(should_watch(CorrectionLearningMode::Ask, "hello"));
    assert!(should_watch(CorrectionLearningMode::Auto, "hello"));
    assert!(!should_watch(CorrectionLearningMode::Off, "hello"));
    assert!(!should_watch(CorrectionLearningMode::Ask, "  \n"));
}

#[test]
fn paste_anchors() {
    assert_eq!(
        locate_paste("Dear team, ship it today. Thanks", "ship it today."),
        Some(("Dear team, ".to_string(), " Thanks".to_string()))
    );
    // The last occurrence is the paste.
    assert_eq!(locate_paste("ab ab", "ab"), Some(("ab ".to_string(), "".to_string())));
    assert_eq!(locate_paste("short", "much longer text"), None);
    assert_eq!(locate_paste("abc", "xyz"), None);
    assert_eq!(edited_region("Dear team, ship it now. Thanks", "Dear team, ", " Thanks"), Some("ship it now.".to_string()));
    assert_eq!(edited_region("Hi team, ship it now. Thanks", "Dear team, ", " Thanks"), None);
    assert_eq!(edited_region("ab", "ab", "b"), None);
}

#[test]
fn watcher_reports_a_settled_correction_once() {
    let pasted = "I use claw every day";
    let mut w = WatchState::new(pasted, pasted, String::new(), String::new());
    let edited = "I use Clayde every day";
    // The field changes, then must stay still for the settle count.
    assert!(w.tick(edited).is_none());
    let mut found = None;
    for _ in 0..STABLE_POLLS_BEFORE_DETECT {
        if let Some(c) = w.tick(edited) {
            found = Some(c);
        }
    }
    let c = found.expect("a correction once the field settles");
    assert_eq!((c.from.as_str(), c.to.as_str()), ("claw", "Clayde"));
    assert_eq!(w.baseline, edited);
    // The same settled field does not fire again.
    for _ in 0..5 {
        assert!(w.tick(edited).is_none());
    }
    let payload = CorrectionDetectedPayload::new(c, pasted, CorrectionLearningMode::Ask);
    assert_eq!(payload.from_offset, 6);
    assert_eq!(payload.pasted_text, pasted);
}

#[test]
fn watcher_ignores_broken_anchors() {
    let mut w = WatchState::new("fix claw", "A fix claw B", "A ".to_string(), " B".to_string());
    for _ in 0..6 {
        assert!(w.tick("completely different").is_none());
    }
}

#[test]
fn ax_walk_rules() {
    assert!(is_chrome_role("AXButton"));
    assert!(!is_chrome_role("AXStaticText"));
    assert!(is_content_container_role("AXWebArea"));
    assert!(!is_content_container_role("AXButton"));
    assert_eq!(useful_focused_value("  short  "), None);
    assert_eq!(
        useful_focused_value("  a long enough focused value  "),
        Some("a long enough focused value".to_string())
    );
    let mut t = TraversalState::new();
    assert!(t.enter(0));
    assert!(!t.enter(MAX_DEPTH + 1));
    assert_eq!(t.nodes_visited, 1);
    t.collect("  Hello ");
    t.collect("   ");
    t.collect("World");
    assert_eq!(t.joined(), "Hello \nWorld");
    let mut full = TraversalState::new();
    for _ in 0..MAX_NODES {
        assert!(full.enter(1));
    }
    assert!(full.exhausted());
    assert!(!full.enter(1));
    assert!(needs_window_fallback("too short"));
    assert!(!needs_window_fallback("this is at least twenty chars"));
}

#[test]
fn capture_records() {
    assert!(make_capture("   ".to_string(), CaptureSource::Ax, None, None, 3).is_none());
    let c = make_capture(
        "Meeting with Satya about Azure".to_string(),
        CaptureSource::Ocr,
        Some("com.apple.Notes".to_string()),
        Some("Notes".to_string()),
        42,
    )
    .unwrap();
    let e = captured_event(&c);
    assert_eq!(e.candidates, vec!["Satya".to_string(), "Azure".to_string()]);
    assert_eq!(e.source, CaptureSource::Ocr);
    assert_eq!(e.raw_text_len, 30);
    assert_eq!(e.latency_ms, 42);
}

#[test]
fn ocr_window_and_text() {
    let windows = [
        WindowInfo { owner_pid: Some(7), layer: Some(25), number: Some(1) },
        WindowInfo { owner_pid: Some(9), layer: Some(0), number: Some(2) },
        WindowInfo { owner_pid: Some(7), layer: Some(0), number: Some(0) },
        WindowInfo { owner_pid: Some(7), layer: Some(0), number: Some(33) },
        WindowInfo { owner_pid: Some(7), layer: Some(0), number: Some(44) },
    ];
    assert_eq!(focused_window_id_for_pid(&windows, 7), Some(33));
    assert_eq!(focused_window_id_for_pid(&windows, 8), None);
    let lines: Vec<String> = vec!["  Hello ".into(), "".into(), "world".into()];
    assert_eq!(assemble_ocr_text(&lines), Some("Hello world".to_string()));
    assert_eq!(assemble_ocr_text(&["  ".to_string()]), None);
}

use vibeking::screen_context::ContentWalk;

#[test]
fn content_walk_is_depth_first_and_skips_chrome() {
    // Tree: 1 (group) -> [2 (button, with a child 5), 3 (text) -> [4 (text)]]
    let mut w = ContentWalk::start(1);
    assert_eq!(w.next_node(), Some((1, 0)));
    w.visit(Some("AXGroup"), &["  Title ".to_string()], &[2, 3], 0);
    assert_eq!(w.next_node(), Some((2, 1)));
    // Chrome: nothing collected, children not queued.
    w.visit(Some("AXButton"), &["Click me".to_string()], &[5], 1);
    assert_eq!(w.next_node(), Some((3, 1)));
    w.visit(Some("AXStaticText"), &["Body".to_string(), "  ".to_string()], &[4], 1);
    assert_eq!(w.next_node(), Some((4, 2)));
    w.visit(None, &["Leaf".to_string()], &[], 2);
    assert_eq!(w.next_node(), None);
    assert_eq!(w.state.nodes_visited, 4);
    assert_eq!(w.state.joined(), "Title \nBody \nLeaf");
}

#[test]
fn content_walk_stops_at_depth_and_budget() {
    let mut deep = ContentWalk::start(0);
    let mut depth_seen = 0;
    while let Some((id, d)) = deep.next_node() {
        depth_seen = d;
        deep.visit(Some("AXGroup"), &[], &[id + 1], d);
    }
    assert_eq!(depth_seen, 8);
    assert_eq!(deep.state.nodes_visited, 9);

    let mut wide = ContentWalk::start(0);
    let children: Vec<u64> = (1..=1_000).collect();
    let (id, d) = wide.next_node().unwrap();
    assert_eq!(id, 0);
    wide.visit(Some("AXList"), &[], &children, d);
    let mut n = 1;
    while let Some((_, d)) = wide.next_node() {
        wide.visit(Some("AXCell"), &[], &[], d);
        n += 1;
    }
    assert_eq!(n, 500);
    assert!(wide.stack.is_empty());
}
