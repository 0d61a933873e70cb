use vibeking::polish::PolishProvider;
use vibeking::state::{
    active_mode_payload, apply_active_refinement_mode, apply_cycle_refinement_mode, default_active_refinement_mode_id,
    default_favorite_stt_languages, default_gemma_idle_timeout_min, default_polish_base_url, default_polish_model,
    default_quick_switch_mode_ids, default_record_hotkey, default_stt_language, default_true, gemma_idle_policy_secs,
    lookup_mode, model_switched, next_cycle_id, CorrectionLearningMode, ScreenContextMode, Settings,
};
use vibeking::stt::Provider;

fn s(v: &[&str]) -> Vec<String> {
    v.iter().map(|x| x.to_string()).collect()
}

#[test]
fn defaults_of_a_new_profile() {
    let d = Settings::default();
    assert_eq!(d.provider, Provider::Deepgram);
    assert_eq!(d.language, "zh");
    assert_eq!(d.stt_language, "auto");
    assert_eq!(d.polish_provider, PolishProvider::Anthropic);
    assert_eq!(d.polish_base_url, "http://localhost:11434/v1");
    assert_eq!(d.polish_model, "qwen2.5:3b-instruct");
    assert_eq!(d.active_refinement_mode_id, None);
    assert_eq!(d.quick_switch_mode_ids, s(&["polish", "email", "code", "notes", "translate"]));
    assert_eq!(d.translate_target, "English");
    assert_eq!(d.record_hotkey, "right-control");
    assert_eq!(d.screen_context_mode, ScreenContextMode::Ax);
    assert_eq!(d.correction_learning_mode, CorrectionLearningMode::Ask);
    assert_eq!(d.favorite_stt_languages, s(&["zh", "en", "ja", "ko", "es", "fr", "de", "pt", "ru"]));
    assert!(d.sound_fx && d.gemma_streaming && !d.gemma_keep_loaded && !d.persistent_bar);
    assert_eq!(d.gemma_idle_timeout_min, 15);
}

#[test]
fn default_helpers() {
    assert_eq!(default_record_hotkey(), "right-control");
    assert!(default_true());
    assert_eq!(default_stt_language(), "auto");
    assert_eq!(default_favorite_stt_languages().len(), 9);
    assert_eq!(default_polish_base_url(), "http://localhost:11434/v1");
    assert_eq!(default_polish_model(), "qwen2.5:3b-instruct");
    assert_eq!(default_gemma_idle_timeout_min(), 15);
    assert_eq!(default_active_refinement_mode_id(), None);
    assert_eq!(default_quick_switch_mode_ids().len(), 5);
}

#[test]
fn api_keys_per_provider() {
    let mut d = Settings::default();
    d.deepgram_key = "dg".to_string();
    d.groq_key = "gq".to_string();
    d.openai_key = "oa".to_string();
    d.elevenlabs_key = "el".to_string();
    assert_eq!(d.api_key_for(Provider::Deepgram), "dg");
    assert_eq!(d.api_key_for(Provider::Groq), "gq");
    assert_eq!(d.api_key_for(Provider::Openai), "oa");
    assert_eq!(d.api_key_for(Provider::Elevenlabs), "el");
    assert_eq!(d.api_key_for(Provider::Local), "");
    assert_eq!(d.api_key_for(Provider::Gemma), "");
}

#[test]
fn cycle_walks_modes_then_off() {
    let cycle = s(&["polish", "email", "code"]);
    assert_eq!(next_cycle_id(&cycle, None), Some("polish".to_string()));
    assert_eq!(next_cycle_id(&cycle, Some("polish")), Some("email".to_string()));
    assert_eq!(next_cycle_id(&cycle, Some("code")), None);
    assert_eq!(next_cycle_id(&cycle, Some("custom")), Some("polish".to_string()));
    assert_eq!(next_cycle_id(&[], Some("polish")), None);
}

#[test]
fn cycling_full_round_returns_to_off() {
    // Every mode of the cycle is visited once, then refinement is off again.
    let mut d = Settings::default();
    d.quick_switch_mode_ids = s(&["polish", "translate"]);
    let p = apply_cycle_refinement_mode(&mut d);
    assert_eq!(d.active_refinement_mode_id.as_deref(), Some("polish"));
    assert_eq!(p.mode.map(|m| m.id), Some("polish".to_string()));
    apply_cycle_refinement_mode(&mut d);
    assert_eq!(d.active_refinement_mode_id.as_deref(), Some("translate"));
    let p = apply_cycle_refinement_mode(&mut d);
    assert_eq!(d.active_refinement_mode_id, None);
    assert!(p.mode.is_none());
}

#[test]
fn active_mode_lookup() {
    let mut d = Settings::default();
    assert!(lookup_mode(&d, "notes").is_some());
    assert!(lookup_mode(&d, "nope").is_none());
    let p = apply_active_refinement_mode(&mut d, Some("email".to_string()));
    assert_eq!(p.mode.map(|m| m.name), Some("Email".to_string()));
    d.active_refinement_mode_id = Some("deleted".to_string());
    assert!(active_mode_payload(&d).mode.is_none());
}

#[test]
fn idle_policy_seconds() {
    assert_eq!(gemma_idle_policy_secs(true, 15), 0);
    assert_eq!(gemma_idle_policy_secs(false, 15), 900);
    assert_eq!(gemma_idle_policy_secs(false, u64::MAX), u64::MAX);
}

#[test]
fn switching_engine_or_model() {
    let mut next = Settings::default();
    assert!(!model_switched(Provider::Deepgram, &None, &next));
    assert!(model_switched(Provider::Groq, &None, &next));
    next.model = Some("nova-3".to_string());
    assert!(model_switched(Provider::Deepgram, &None, &next));
    assert!(!model_switched(Provider::Deepgram, &Some("nova-3".to_string()), &next));
    assert!(model_switched(Provider::Deepgram, &Some("nova-2".to_string()), &next));
}
