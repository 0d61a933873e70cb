use vibeking::state::{RefinementMode, Settings};
use vibeking::stt::Provider;
use vibeking::tray::{
    apply_provider_choice, available_providers, effective_language, gemma_supports, language_known, language_label,
    language_menu_entries, languages_for_provider, mic_menu_entries, needs_pick_languages, parakeet_supports,
    parse_menu_event, provider_from_id, provider_id, qwen3_supports, refinement_choice, refinement_menu_entries,
    resolve_mic_choice, tray_strings, TrayCommand,
};

fn s(v: &[&str]) -> Vec<String> {
    v.iter().map(|x| x.to_string()).collect()
}

#[test]
fn language_labels() {
    assert_eq!(language_label("zh"), "中文 · Chinese");
    assert_eq!(language_label("en"), "English");
    assert_eq!(language_label("xx"), "xx");
    assert!(language_known("yue"));
    assert!(!language_known("auto"));
}

#[test]
fn engine_language_sets() {
    assert!(parakeet_supports("fr"));
    assert!(!parakeet_supports("zh"));
    assert!(parakeet_supports("auto"));
    assert!(qwen3_supports("zh"));
    assert!(gemma_supports("en"));
}

#[test]
fn provider_ids_round_trip() {
    for p in [
        Provider::Deepgram,
        Provider::Groq,
        Provider::Openai,
        Provider::Elevenlabs,
        Provider::Local,
        Provider::FluidAudio,
        Provider::Qwen3,
        Provider::Gemma,
    ] {
        assert_eq!(provider_from_id(&provider_id(p)), Some(p));
    }
    assert_eq!(provider_id(Provider::FluidAudio), "fluid-audio");
    assert_eq!(provider_from_id("whisper"), None);
}

#[test]
fn intel_hides_apple_silicon_engines() {
    let all = available_providers(true);
    assert_eq!(all.len(), 8);
    assert_eq!(all[5], ("fluid-audio", "Local · Parakeet"));
    let intel = available_providers(false);
    assert_eq!(intel.len(), 5);
    assert!(intel.iter().all(|(id, _)| *id != "qwen3" && *id != "gemma" && *id != "fluid-audio"));
}

#[test]
fn tray_strings_by_locale() {
    assert_eq!(tray_strings("zh").quit, "退出 Vibeking");
    assert_eq!(tray_strings("zh-Hant").auto_detect, "自動偵測");
    assert_eq!(tray_strings("fr").refinement_off, "Off");
    assert_eq!(tray_strings("en").mic_unavailable_suffix, "(not connected)");
}

#[test]
fn language_menu_filters_by_engine() {
    let strings = tray_strings("en");
    let favorites = s(&["zh", "auto", "fr", "xx", "en"]);
    let all = languages_for_provider("deepgram", &favorites, &strings);
    assert_eq!(
        all,
        vec![
            ("auto".to_string(), "Auto-detect".to_string()),
            ("zh".to_string(), "中文 · Chinese".to_string()),
            ("fr".to_string(), "Français · French".to_string()),
            ("en".to_string(), "English".to_string()),
        ]
    );
    let parakeet = languages_for_provider("fluid-audio", &favorites, &strings);
    assert_eq!(parakeet.len(), 3);
    assert_eq!(parakeet[1].0, "fr");
    assert!(!needs_pick_languages(parakeet.len()));
    assert!(needs_pick_languages(languages_for_provider("gemma", &[], &strings).len()));
}

#[test]
fn effective_language_for_parakeet() {
    assert_eq!(effective_language(Provider::FluidAudio, "zh"), "auto");
    assert_eq!(effective_language(Provider::FluidAudio, "de"), "de");
    assert_eq!(effective_language(Provider::Deepgram, "zh"), "zh");
}

#[test]
fn provider_choice_resets_unsupported_language() {
    let mut settings = Settings::default();
    settings.stt_language = "zh".to_string();
    assert!(apply_provider_choice(&mut settings, "fluid-audio"));
    assert_eq!(settings.provider, Provider::FluidAudio);
    assert_eq!(settings.stt_language, "auto");
    assert!(!apply_provider_choice(&mut settings, "nope"));
    assert_eq!(settings.provider, Provider::FluidAudio);
    settings.stt_language = "ja".to_string();
    assert!(apply_provider_choice(&mut settings, "qwen3"));
    assert_eq!(settings.stt_language, "ja");
}

#[test]
fn mic_choice_and_refinement_choice() {
    assert_eq!(resolve_mic_choice("__system_default__"), "");
    assert_eq!(resolve_mic_choice("AirPods"), "AirPods");
    let modes = Settings::default().refinement_modes;
    assert_eq!(refinement_choice(&modes, "__off__"), Some(None));
    assert_eq!(refinement_choice(&modes, "email"), Some(Some("email".to_string())));
    assert_eq!(refinement_choice(&modes, "gone"), None);
}

#[test]
fn menu_ids_parse() {
    assert!(matches!(parse_menu_event("main:show"), TrayCommand::ShowMain));
    assert!(matches!(parse_menu_event("app:quit"), TrayCommand::Quit));
    assert!(matches!(parse_menu_event("pick-languages"), TrayCommand::PickLanguages));
    assert!(matches!(parse_menu_event("persistent-bar"), TrayCommand::TogglePersistentBar));
    assert!(matches!(parse_menu_event("restore-bar"), TrayCommand::RestoreBar));
    assert!(matches!(parse_menu_event("lang:fr"), TrayCommand::SetLanguage(v) if v == "fr"));
    assert!(matches!(parse_menu_event("lang:auto"), TrayCommand::SetLanguage(v) if v == "auto"));
    assert!(matches!(parse_menu_event("lang:klingon"), TrayCommand::Ignore));
    assert!(matches!(parse_menu_event("provider:gemma"), TrayCommand::SetProvider(v) if v == "gemma"));
    assert!(matches!(parse_menu_event("provider:siri"), TrayCommand::Ignore));
    assert!(matches!(parse_menu_event("refinement:__off__"), TrayCommand::SetRefinement(v) if v == "__off__"));
    assert!(matches!(parse_menu_event("mic:USB Mic"), TrayCommand::SetMic(v) if v == "USB Mic"));
    assert!(matches!(parse_menu_event("something"), TrayCommand::Ignore));
}

#[test]
fn mic_menu_marks_saved_and_missing_devices() {
    let entries = mic_menu_entries(&s(&["Built-in", "USB"]), "  AirPods ", "System default", "(not connected)");
    let view: Vec<(String, String, bool)> = entries.into_iter().map(|e| (e.key, e.label, e.checked)).collect();
    assert_eq!(
        view,
        vec![
            ("__system_default__".to_string(), "System default".to_string(), false),
            ("Built-in".to_string(), "Built-in".to_string(), false),
            ("USB".to_string(), "USB".to_string(), false),
            ("AirPods".to_string(), "AirPods (not connected)".to_string(), true),
        ]
    );
    let entries = mic_menu_entries(&s(&["Built-in", "USB"]), "USB", "System default", "(not connected)");
    assert_eq!(entries.len(), 3);
    assert!(entries[2].checked && !entries[0].checked);
    let entries = mic_menu_entries(&s(&["Built-in"]), "", "System default", "(not connected)");
    assert_eq!(entries.len(), 2);
    assert!(entries[0].checked && !entries[1].checked);
}

#[test]
fn refinement_and_language_menus() {
    let modes = vec![RefinementMode {
        id: "email".to_string(),
        name: "Email".to_string(),
        emoji: "✉️".to_string(),
        prompt: "p".to_string(),
        builtin: true,
    }];
    let off = refinement_menu_entries(&modes, None, "Off");
    assert_eq!(off.len(), 2);
    assert!(off[0].checked && !off[1].checked);
    assert_eq!(off[1].label, "✉️ Email");
    let on = refinement_menu_entries(&modes, Some("email"), "Off");
    assert!(!on[0].checked && on[1].checked);
    let langs = language_menu_entries(
        &[("auto".to_string(), "Auto-detect".to_string()), ("fr".to_string(), "Français".to_string())],
        "fr",
    );
    assert!(!langs[0].checked && langs[1].checked);
}

use vibeking::tray::{tray_key, tray_needs_rebuild};

#[test]
fn tray_rebuilds_only_when_its_inputs_change() {
    let settings = Settings::default();
    let devices = s(&["Built-in"]);
    let key = tray_key(&settings, &devices);
    assert_eq!(key.provider, "deepgram");
    assert_eq!(key.modes.len(), 5);
    assert!(tray_needs_rebuild(&None, &key));
    let again = tray_key(&settings, &devices);
    assert!(!tray_needs_rebuild(&Some(key.clone()), &again));
    // Hotwords do not shape the menu.
    let mut hot = settings.clone();
    hot.hotwords = s(&["Vibeking"]);
    assert!(!tray_needs_rebuild(&Some(key.clone()), &tray_key(&hot, &devices)));
    // A renamed mode, a new device, or the bar setting do.
    let mut renamed = settings.clone();
    renamed.refinement_modes[1].name = "Mail".to_string();
    assert!(tray_needs_rebuild(&Some(key.clone()), &tray_key(&renamed, &devices)));
    assert!(tray_needs_rebuild(&Some(key.clone()), &tray_key(&settings, &s(&["Built-in", "USB"]))));
    let mut bar = settings.clone();
    bar.persistent_bar = true;
    assert!(tray_needs_rebuild(&Some(key), &tray_key(&bar, &devices)));
}
