use vibeking::transcript::{is_chat_refusal, join_transcript, wants_space_boundary};

#[test]
fn latin_seam_gets_one_space() {
    assert_eq!(
        join_transcript("hello world", "this is"),
        "hello world this is"
    );
    // empty prefix → bare next; empty next → bare prefix
    assert_eq!(join_transcript("", "first words"), "first words");
    assert_eq!(join_transcript("already here", ""), "already here");
}

#[test]
fn does_not_double_space_or_break_punctuation() {
    // existing whitespace at the seam is normalized to a single space
    assert_eq!(join_transcript("hello ", "  world"), "hello world");
    // punctuation on either side takes no extra space
    assert_eq!(join_transcript("end.", "Next"), "end.Next");
    assert_eq!(join_transcript("wait", ", really"), "wait, really");
}

#[test]
fn cjk_seam_has_no_space() {
    // Simplified + Traditional: never insert a Latin space between glyphs.
    assert_eq!(join_transcript("你好", "世界"), "你好世界");
    assert_eq!(join_transcript("今天天氣", "很好"), "今天天氣很好");
    // mixed: CJK on one side of the seam suppresses the space
    assert_eq!(join_transcript("开发 app", "继续"), "开发 app继续");
}

#[test]
fn space_boundary_classifies_scripts() {
    assert!(wants_space_boundary('a'));
    assert!(wants_space_boundary('Z'));
    assert!(wants_space_boundary('7'));
    assert!(!wants_space_boundary('你')); // CJK
    assert!(!wants_space_boundary('。')); // CJK punctuation
    assert!(!wants_space_boundary(',')); // ASCII punctuation
    assert!(!wants_space_boundary(' '));
}

#[test]
fn is_chat_refusal_catches_variants_without_request_suffix() {
    assert!(is_chat_refusal("I cannot fulfill this")); // no "request"
    assert!(is_chat_refusal("I can't fulfil this")); // single-l
    assert!(is_chat_refusal("Please provide the audio file"));
    assert!(!is_chat_refusal("I will fulfill my testing duties")); // genuine speech
}

use vibeking::transcript::{
    append_segment, compose, is_cjk, is_preview_hallucination, is_whitespace_only, render_preview,
    should_roll_window, split_keep_delimiters, strip_edge_punct, StreamWindow, WINDOW_HARD_SAMPLES,
    WINDOW_TARGET_SAMPLES,
};

#[test]
fn preview_render_strips_onset_symbol_and_dangling_mark() {
    assert_eq!(render_preview("\u{2581}∴\u{2581}Yes", ""), "Yes");
    assert_eq!(render_preview("\u{2581}we\u{2581}are", "\u{2581}going"), "we are going");
    assert_eq!(render_preview("\u{2581}fort.", ""), "fort");
    assert_eq!(render_preview("今天", "好"), "今天好");
    assert_eq!(render_preview("", ""), "");
}

#[test]
fn canned_preview_replies() {
    assert!(is_preview_hallucination(" Thank you. "));
    assert!(is_preview_hallucination("How can I help you today?"));
    assert!(is_preview_hallucination("谢谢观看。"));
    assert!(!is_preview_hallucination("thank you for the report"));
}

#[test]
fn tokens_keep_their_delimiters() {
    let parts = split_keep_delimiters("Hi  there,\tfriend");
    assert_eq!(parts, vec!["Hi", "  ", "there,", "\t", "friend"]);
    assert_eq!(parts.concat(), "Hi  there,\tfriend");
    assert!(is_whitespace_only("  "));
    assert!(!is_whitespace_only(""));
    assert_eq!(strip_edge_punct("(hello)!"), ("(", "hello", ")!"));
    assert_eq!(strip_edge_punct("..."), ("...", "", ""));
}

#[test]
fn segments_stitch_by_script() {
    let mut acc = String::from("hello");
    append_segment(&mut acc, "  world ");
    assert_eq!(acc, "hello world");
    append_segment(&mut acc, "   ");
    assert_eq!(acc, "hello world");
    let mut zh = String::from("你好");
    append_segment(&mut zh, "世界");
    assert_eq!(zh, "你好世界");
    assert_eq!(compose("", "first"), "first");
    assert!(is_cjk('中'));
    assert!(!is_cjk('a'));
}

#[test]
fn stream_window_rolls_at_pause_or_ceiling() {
    assert!(!should_roll_window(WINDOW_TARGET_SAMPLES - 1, true));
    assert!(should_roll_window(WINDOW_TARGET_SAMPLES, true));
    assert!(!should_roll_window(WINDOW_TARGET_SAMPLES, false));
    assert!(should_roll_window(WINDOW_HARD_SAMPLES, false));
    let mut w = StreamWindow::new(None);
    assert!(!w.record_feed(WINDOW_TARGET_SAMPLES, false));
    assert!(w.record_feed(1, true));
    assert_eq!(w.roll(" one "), "one");
    assert_eq!(w.samples_in_window, 0);
    assert_eq!(w.preview(Some("two")), Some("one two".to_string()));
    assert_eq!(w.preview(None), None);
    assert_eq!(w.finish(Some(" two ")), "one two");
}
