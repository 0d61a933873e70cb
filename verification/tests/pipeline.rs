use vibeking::pipeline::{
    claim_stream_final, decide_take, feed_error_step, final_source, live_engine_streamed, min_feed_samples,
    needs_whisper_fallback, partial_shown, plan_refinement, preview_min_samples, refinement_outcome, should_prewarm_gemma,
    stream_final_text, transcript_usable, window_ms, FinalSource, HealthEvent, MicHealth, RefinementPlan, SlotPoll,
    TakeDecision, WindowedPreview, MAX_FEED_ERRORS,
};
use vibeking::polish::PolishProvider;
use vibeking::state::Settings;
use vibeking::stt::Provider;

#[test]
fn silent_short_take_is_dropped() {
    // No voice, no peak, not streamed: dropped whether or not raw audio was kept.
    assert_eq!(decide_take(100, 100, false, false, false, false), TakeDecision::Discard);
    assert_eq!(decide_take(5_000, 5_000, false, false, true, false), TakeDecision::Discard);
}

#[test]
fn normal_take_is_transcribed_as_is() {
    assert_eq!(
        decide_take(3_000, 3_200, true, true, false, false),
        TakeDecision::Transcribe { use_raw_audio: false, low_confidence: false }
    );
}

#[test]
fn over_trimmed_voiced_take_uses_raw_audio() {
    assert_eq!(
        decide_take(40, 4_000, false, true, true, false),
        TakeDecision::Transcribe { use_raw_audio: true, low_confidence: true }
    );
}

#[test]
fn quiet_voiced_take_is_transcribed_low_confidence() {
    assert_eq!(
        decide_take(2_000, 2_000, false, true, false, false),
        TakeDecision::Transcribe { use_raw_audio: false, low_confidence: true }
    );
    // Too short and no raw audio kept: nothing to salvage.
    assert_eq!(decide_take(100, 100, true, true, false, false), TakeDecision::Discard);
}

#[test]
fn streamed_take_skips_the_silence_gate() {
    assert!(live_engine_streamed(Provider::Qwen3, true, false));
    assert!(live_engine_streamed(Provider::FluidAudio, false, true));
    assert!(!live_engine_streamed(Provider::Gemma, true, true));
    assert_eq!(
        decide_take(0, 800, false, false, false, true),
        TakeDecision::Transcribe { use_raw_audio: false, low_confidence: false }
    );
    // A hotkey misfire (tiny raw take) is still dropped.
    assert_eq!(decide_take(0, 100, false, false, false, true), TakeDecision::Discard);
}

#[test]
fn final_source_by_engine() {
    assert_eq!(final_source(Provider::Qwen3, true, false, false, 1_000), FinalSource::Qwen3Stream);
    assert_eq!(final_source(Provider::Qwen3, false, false, false, 1_000), FinalSource::Batch);
    assert_eq!(final_source(Provider::Gemma, false, true, true, 1_000), FinalSource::GemmaStream);
    assert_eq!(final_source(Provider::Gemma, false, true, false, 1_000), FinalSource::Batch);
    assert_eq!(final_source(Provider::Gemma, false, true, false, 25_000), FinalSource::GemmaStream);
    assert_eq!(final_source(Provider::Deepgram, true, true, true, 60_000), FinalSource::Batch);
}

#[test]
fn whisper_fallback_cases() {
    assert!(needs_whisper_fallback(Provider::Qwen3, None, 1_000, true));
    assert!(!needs_whisper_fallback(Provider::Qwen3, None, 1_000, false));
    assert!(!needs_whisper_fallback(Provider::Deepgram, None, 1_000, true));
    assert!(needs_whisper_fallback(Provider::Gemma, Some("  "), 45_000, true));
    assert!(!needs_whisper_fallback(Provider::Gemma, Some("  "), 10_000, true));
    assert!(needs_whisper_fallback(
        Provider::Gemma,
        Some("I cannot fulfill this request, no audio file provided."),
        3_000,
        true
    ));
    assert!(!needs_whisper_fallback(Provider::Gemma, Some("hello world"), 3_000, true));
}

#[test]
fn transcript_usable_cases() {
    assert!(!transcript_usable("   ", false));
    assert!(transcript_usable("thank you", false));
    assert!(!transcript_usable("Thank you.", true));
    assert!(!transcript_usable("As an AI, I cannot help.", true));
    assert!(transcript_usable("ship the release today", true));
}

#[test]
fn window_ms_counts_frames() {
    assert_eq!(window_ms(48_000, 48_000, 1), 1_000);
    assert_eq!(window_ms(96_000, 48_000, 2), 1_000);
    assert_eq!(window_ms(16_000, 16_000, 0), 1_000);
    assert_eq!(window_ms(8_000, 16_000, 1), 500);
}

#[test]
fn windowed_preview_commits_at_pause_or_cap() {
    let mut p = WindowedPreview::new();
    // A short window without a pause is shown but not committed.
    assert_eq!(p.fold_window("hello there", 900, false, 100), Some("hello there".to_string()));
    assert_eq!(p.committed, "");
    assert_eq!(p.commit_cursor, 0);
    // A pause after a long-enough window commits.
    assert_eq!(p.fold_window("hello there", 1_500, true, 200), Some("hello there".to_string()));
    assert_eq!(p.committed, "hello there");
    assert_eq!(p.commit_cursor, 200);
    // The next window is shown after the committed prefix.
    assert_eq!(p.fold_window("general", 500, false, 300), Some("hello there general".to_string()));
    // An unusable window hitting the cap is dropped but the cursor moves on.
    assert_eq!(p.fold_window("thank you", 8_000, false, 900), None);
    assert_eq!(p.committed, "hello there");
    assert_eq!(p.commit_cursor, 900);
    // A runaway window commits at the cap.
    assert_eq!(p.fold_window("kenobi", 8_000, false, 1_000), Some("hello there kenobi".to_string()));
    assert_eq!(p.committed, "hello there kenobi");
    p.fold_tail("  the end  ");
    assert_eq!(p.committed, "hello there kenobi the end");
    p.fold_tail("I cannot transcribe this");
    assert_eq!(p.final_text(), Some("hello there kenobi the end".to_string()));
    assert_eq!(WindowedPreview::new().final_text(), None);
}

#[test]
fn prewarm_only_when_cold() {
    assert!(should_prewarm_gemma(Provider::Gemma, true, true, false));
    assert!(!should_prewarm_gemma(Provider::Gemma, true, true, true));
    assert!(!should_prewarm_gemma(Provider::Gemma, false, true, false));
    assert!(!should_prewarm_gemma(Provider::Gemma, true, false, false));
    assert!(!should_prewarm_gemma(Provider::Qwen3, true, true, false));
}

#[test]
fn feed_errors_tolerate_transients() {
    assert_eq!(feed_error_step(0, true), (1, false));
    assert_eq!(feed_error_step(1, true), (2, false));
    assert_eq!(feed_error_step(2, true), (MAX_FEED_ERRORS, true));
    assert_eq!(feed_error_step(2, false), (0, false));
    assert_eq!(feed_error_step(u32::MAX, true), (u32::MAX, true));
}

#[test]
fn feed_and_preview_thresholds() {
    assert_eq!(min_feed_samples(48_000, 2), 24_000);
    assert_eq!(min_feed_samples(16_000, 0), 4_000);
    assert_eq!(min_feed_samples(0, 1), 1);
    assert_eq!(preview_min_samples(48_000, 1), 14_400);
    assert_eq!(preview_min_samples(44_100, 2), 26_460);
    assert_eq!(preview_min_samples(0, 2), 0);
}

#[test]
fn stream_final_text_drops_blank() {
    assert_eq!(stream_final_text(Some("  hi ".to_string())), Some("  hi ".to_string()));
    assert_eq!(stream_final_text(Some(" \n ".to_string())), None);
    assert_eq!(stream_final_text(None), None);
}

#[test]
fn stream_final_is_taken_once() {
    let mut slot = Some((7u64, Some("final words".to_string())));
    match claim_stream_final(&mut slot, 7) {
        SlotPoll::Ready(Some(t)) => assert_eq!(t, "final words"),
        other => panic!("unexpected {:?}", other),
    }
    assert!(slot.is_none());
    assert!(matches!(claim_stream_final(&mut slot, 7), SlotPoll::Pending));
}

#[test]
fn newer_final_is_left_for_its_session() {
    let mut slot = Some((9u64, None));
    assert!(matches!(claim_stream_final(&mut slot, 8), SlotPoll::Superseded));
    assert_eq!(slot, Some((9, None)));
    let mut stale = Some((3u64, Some("old".to_string())));
    assert!(matches!(claim_stream_final(&mut stale, 8), SlotPoll::Pending));
    assert_eq!(stale, Some((3, Some("old".to_string()))));
    assert!(matches!(claim_stream_final(&mut slot, 9), SlotPoll::Ready(None)));
}

#[test]
fn mic_health_warns_once_and_recovers() {
    let mut h = MicHealth::new(0, 0);
    assert_eq!(h.observe(0, 400), None);
    assert_eq!(h.observe(0, 3_000), None);
    assert_eq!(h.observe(0, 3_001), Some(HealthEvent::Dead));
    // One warning per silent spell.
    assert_eq!(h.observe(0, 9_000), None);
    // The heartbeat moves: recovery is reported and the warning re-armed.
    assert_eq!(h.observe(5, 9_400), Some(HealthEvent::Live));
    assert!(!h.warned);
    assert_eq!(h.observe(6, 9_800), None);
    assert_eq!(h.observe(6, 12_801), Some(HealthEvent::Dead));
}

fn settings_with_mode(id: Option<&str>) -> Settings {
    let mut s = Settings::default();
    s.active_refinement_mode_id = id.map(|x| x.to_string());
    s
}

#[test]
fn refinement_plan_cases() {
    // Off when no mode is active.
    assert!(matches!(plan_refinement(&settings_with_mode(None)), RefinementPlan::Off));
    // Anthropic without a key is not configured.
    assert!(matches!(plan_refinement(&settings_with_mode(Some("polish"))), RefinementPlan::Off));
    let mut s = settings_with_mode(Some("polish"));
    s.anthropic_key = "sk-test".to_string();
    match plan_refinement(&s) {
        RefinementPlan::Run { translate, prompt } => {
            assert!(!translate);
            assert_eq!(prompt, s.refinement_modes[0].prompt);
        }
        RefinementPlan::Off => panic!("expected a pass"),
    }
    // An unknown id runs nothing.
    s.active_refinement_mode_id = Some("missing".to_string());
    assert!(matches!(plan_refinement(&s), RefinementPlan::Off));
    // The translation mode on a local server.
    let mut t = settings_with_mode(Some("translate"));
    t.polish_provider = PolishProvider::Ollama;
    assert!(matches!(plan_refinement(&t), RefinementPlan::Run { translate: true, .. }));
    t.polish_model = String::new();
    assert!(matches!(plan_refinement(&t), RefinementPlan::Off));
}

#[test]
fn refinement_outcome_keeps_raw_on_blank_or_failure() {
    assert_eq!(
        refinement_outcome("raw words", false, Some("Polished words.".to_string())),
        ("Polished words.".to_string(), true, false)
    );
    assert_eq!(
        refinement_outcome("raw words", true, Some("Mots traduits".to_string())),
        ("Mots traduits".to_string(), false, true)
    );
    assert_eq!(refinement_outcome("raw words", false, Some("   ".to_string())), ("raw words".to_string(), false, false));
    assert_eq!(refinement_outcome("raw words", true, None), ("raw words".to_string(), false, false));
}

#[test]
fn partial_preview_is_throttled_and_filtered() {
    // Shown once the throttle window has passed and the text is real speech.
    assert!(partial_shown("hello there", 160, 100, true));
    // Too soon after the previous emit.
    assert!(!partial_shown("hello there", 159, 100, true));
    // A clock that went backwards never emits.
    assert!(!partial_shown("hello there", 50, 100, true));
    // Empty text, a canned hallucination, a chat refusal, or a stale take.
    assert!(!partial_shown("", 500, 0, true));
    assert!(!partial_shown(" Thank you. ", 500, 0, true));
    assert!(!partial_shown("Please provide the audio file", 500, 0, true));
    assert!(!partial_shown("hello there", 500, 0, false));
}
