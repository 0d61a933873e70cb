use vibeking::polish::{
    anthropic_reply, build_prompt, builtin_refinement_modes, default_refinement_modes, models_url,
    normalize_model_ids, openai_reply, plan_polish, str_less, strip_thinking, Mode, PolishConfig, PolishError,
    PolishProvider, PolishRequest, POLISH_PROMPT, TRANSLATE_PROMPT,
};
use vibeking::state::CorrectionEntry;

fn s(v: &[&str]) -> Vec<String> {
    v.iter().map(|x| x.to_string()).collect()
}

fn config<'a>(provider: PolishProvider, prompt: &'a str) -> PolishConfig<'a> {
    PolishConfig {
        provider,
        anthropic_key: "sk-ant",
        base_url: "http://localhost:11434/v1/",
        model: "qwen2.5:3b-instruct",
        api_key: "",
        prompt,
    }
}

#[test]
fn strips_closed_and_unclosed_thinking() {
    assert_eq!(strip_thinking("<think>plan</think> Hello there. "), "Hello there.");
    assert_eq!(strip_thinking("A<think>x</think>B<think>y</think>C"), "ABC");
    assert_eq!(strip_thinking("Answer <think>never closed"), "Answer");
    assert_eq!(strip_thinking("<think>only thoughts</think>"), "");
    assert_eq!(strip_thinking("  plain  "), "plain");
}

#[test]
fn builds_polish_prompt_with_hotwords_and_corrections() {
    let dict = vec![CorrectionEntry { from: "claw".to_string(), to: "Clayde".to_string(), learned_at_ms: 1 }];
    let (system, user) = build_prompt("hi claw", &s(&["Vibeking", "Tauri"]), &dict, &config(PolishProvider::Anthropic, "BASE"), Mode::Polish);
    assert_eq!(
        system,
        "BASE\n\nProper-noun / hot-word corrections to apply when applicable: Vibeking, Tauri\n\nLearned corrections: \"claw\" should be \"Clayde\"."
    );
    assert_eq!(user, "Transcript:\nhi claw");
}

#[test]
fn translate_prompt_fills_target() {
    let (system, _) = build_prompt(
        "bonjour",
        &[],
        &[],
        &config(PolishProvider::Anthropic, TRANSLATE_PROMPT),
        Mode::Translate { target_language: "Japanese" },
    );
    assert!(system.starts_with("You translate voice-typed transcripts to Japanese."));
    assert!(!system.contains("{target}"));
}

#[test]
fn plans_requests_per_provider() {
    match plan_polish("hello", &[], &[], &config(PolishProvider::Anthropic, POLISH_PROMPT), Mode::Polish) {
        Ok(PolishRequest::Anthropic { api_key, user, .. }) => {
            assert_eq!(api_key, "sk-ant");
            assert_eq!(user, "Transcript:\nhello");
        }
        other => panic!("unexpected {:?}", other),
    }
    match plan_polish("hello", &[], &[], &config(PolishProvider::Ollama, POLISH_PROMPT), Mode::Polish) {
        Ok(PolishRequest::OpenAiCompat { url, model, bearer, .. }) => {
            assert_eq!(url, "http://localhost:11434/v1/chat/completions");
            assert_eq!(model, "qwen2.5:3b-instruct");
            assert_eq!(bearer, None);
        }
        other => panic!("unexpected {:?}", other),
    }
    let mut keyed = config(PolishProvider::Custom, POLISH_PROMPT);
    keyed.api_key = "secret";
    assert!(matches!(
        plan_polish("hello", &[], &[], &keyed, Mode::Polish),
        Ok(PolishRequest::OpenAiCompat { bearer: Some(b), .. }) if b == "secret"
    ));
}

#[test]
fn plan_errors_and_blank_text() {
    assert!(matches!(
        plan_polish("   ", &[], &[], &config(PolishProvider::Anthropic, POLISH_PROMPT), Mode::Polish),
        Ok(PolishRequest::Empty)
    ));
    let mut no_key = config(PolishProvider::Anthropic, POLISH_PROMPT);
    no_key.anthropic_key = "";
    assert!(matches!(plan_polish("x", &[], &[], &no_key, Mode::Polish), Err(PolishError::MissingAnthropicKey)));
    let mut no_url = config(PolishProvider::LmStudio, POLISH_PROMPT);
    no_url.base_url = "";
    assert!(matches!(plan_polish("x", &[], &[], &no_url, Mode::Polish), Err(PolishError::MissingBaseUrl)));
    let mut no_model = config(PolishProvider::MlxLm, POLISH_PROMPT);
    no_model.model = "";
    assert!(matches!(plan_polish("x", &[], &[], &no_model, Mode::Polish), Err(PolishError::MissingModelName)));
}

#[test]
fn replies_take_first_text_and_strip_thinking() {
    assert_eq!(
        anthropic_reply(vec![None, Some("<think>hm</think> Done.".to_string()), Some("later".to_string())]),
        Ok("Done.".to_string())
    );
    assert_eq!(anthropic_reply(vec![None]), Err(PolishError::EmptyResponse));
    assert_eq!(openai_reply(vec![Some(" Fine. ".to_string()), Some("second".to_string())]), Ok("Fine.".to_string()));
    assert_eq!(openai_reply(vec![None, Some("second".to_string())]), Err(PolishError::EmptyResponse));
    assert_eq!(openai_reply(vec![]), Err(PolishError::EmptyResponse));
}

#[test]
fn models_endpoint() {
    assert_eq!(models_url("http://localhost:1234/v1//"), Some("http://localhost:1234/v1/models".to_string()));
    assert_eq!(models_url("   "), None);
}

#[test]
fn model_ids_sorted_and_deduped() {
    // Same ids as a GET /v1/models reply from Ollama / LM Studio.
    let ids = normalize_model_ids(&s(&["qwen2.5:3b-instruct", "llama3.2:latest", "qwen2.5:3b-instruct"]));
    assert_eq!(ids, vec!["llama3.2:latest", "qwen2.5:3b-instruct"]);
    assert!(normalize_model_ids(&[]).is_empty());
    assert_eq!(normalize_model_ids(&s(&["b", "  ", "a", "", "b"])), vec!["a", "b"]);
}

#[test]
fn string_order() {
    assert!(str_less("abc", "abd"));
    assert!(str_less("ab", "abc"));
    assert!(!str_less("abc", "abc"));
    assert!(str_less("Z", "a"));
}

#[test]
fn builtin_modes() {
    let defs = builtin_refinement_modes();
    let ids: Vec<&str> = defs.iter().map(|d| d.id).collect();
    assert_eq!(ids, vec!["polish", "email", "code", "notes", "translate"]);
    let modes = default_refinement_modes();
    assert_eq!(modes.len(), 5);
    assert!(modes.iter().all(|m| m.builtin));
    assert_eq!(modes[0].prompt, POLISH_PROMPT);
    assert_eq!(modes[2].name, "Code prompt");
}
