use vibeking::stt::{
    deepgram_transcript, instruction_for, language_hint, language_name, model_or_default, plan_deepgram,
    plan_elevenlabs, plan_whisper_api, provider_needs_warm, sse_payload, take_line, CloudError, Provider,
    TranscribeInput, GROQ_DEFAULT_MODEL, OPENAI_DEFAULT_MODEL,
};

fn s(v: &[&str]) -> Vec<String> {
    v.iter().map(|x| x.to_string()).collect()
}

fn pairs(v: &[(&str, &str)]) -> Vec<(String, String)> {
    v.iter().map(|(a, b)| (a.to_string(), b.to_string())).collect()
}

fn input<'a>(key: &'a str, language: Option<&'a str>, hot: &'a [String], ctx: &'a [String], model: Option<&'a str>) -> TranscribeInput<'a> {
    TranscribeInput { wav: &[], api_key: key, language, hotwords: hot, context_candidates: ctx, model }
}

#[test]
fn warm_only_local_engines() {
    assert!(provider_needs_warm(Provider::Qwen3));
    assert!(!provider_needs_warm(Provider::Local));
    assert!(!provider_needs_warm(Provider::Deepgram));
    assert!(!provider_needs_warm(Provider::Elevenlabs));
}

#[test]
fn deepgram_nova3_auto_language_and_keyterms() {
    let hot = s(&["Vibeking"]);
    let ctx = s(&["Tauri", "vibeking"]);
    let req = plan_deepgram(&input("dg", Some("auto"), &hot, &ctx, None)).unwrap();
    assert_eq!(req.model, "nova-3");
    assert_eq!(
        req.fields,
        pairs(&[
            ("model", "nova-3"),
            ("smart_format", "true"),
            ("punctuate", "true"),
            ("language", "multi"),
            ("keyterm", "Vibeking,Tauri"),
        ])
    );
}

#[test]
fn deepgram_older_model_with_language_uses_keywords() {
    let hot = s(&["Tauri"]);
    let req = plan_deepgram(&input("dg", Some("de"), &hot, &[], Some("nova-2"))).unwrap();
    assert_eq!(
        req.fields,
        pairs(&[
            ("model", "nova-2"),
            ("smart_format", "true"),
            ("punctuate", "true"),
            ("language", "de"),
            ("keywords", "Tauri"),
        ])
    );
    let plain = plan_deepgram(&input("dg", None, &[], &[], Some("nova-2"))).unwrap();
    assert_eq!(plain.fields.len(), 3);
}

#[test]
fn missing_keys_are_refused() {
    assert_eq!(plan_deepgram(&input("", None, &[], &[], None)).unwrap_err(), CloudError::MissingKey(Provider::Deepgram));
    assert_eq!(
        plan_whisper_api(Provider::Groq, GROQ_DEFAULT_MODEL, &input("", None, &[], &[], None)).unwrap_err(),
        CloudError::MissingKey(Provider::Groq)
    );
    assert_eq!(plan_elevenlabs(&input("", None, &[], &[], None)).unwrap_err(), CloudError::MissingKey(Provider::Elevenlabs));
}

#[test]
fn whisper_api_form_fields() {
    let hot = s(&["Vibeking", " ", "Tauri"]);
    let req = plan_whisper_api(Provider::Openai, OPENAI_DEFAULT_MODEL, &input("k", Some("ja"), &hot, &[], None)).unwrap();
    assert_eq!(req.model, "gpt-4o-transcribe");
    assert_eq!(
        req.fields,
        pairs(&[
            ("model", "gpt-4o-transcribe"),
            ("response_format", "json"),
            ("language", "ja"),
            ("prompt", "Hotwords / proper nouns that may appear: Vibeking, Tauri"),
        ])
    );
    let bare = plan_whisper_api(Provider::Groq, GROQ_DEFAULT_MODEL, &input("k", Some("auto"), &[], &[], None)).unwrap();
    assert_eq!(bare.fields, pairs(&[("model", "whisper-large-v3-turbo"), ("response_format", "json")]));
}

#[test]
fn elevenlabs_fields() {
    let req = plan_elevenlabs(&input("k", Some("fr"), &[], &[], None)).unwrap();
    assert_eq!(req.fields, pairs(&[("model_id", "scribe_v2"), ("language_code", "fr")]));
    let auto = plan_elevenlabs(&input("k", Some("auto"), &[], &[], Some("scribe_v1"))).unwrap();
    assert_eq!(auto.fields, pairs(&[("model_id", "scribe_v1")]));
}

#[test]
fn language_names_and_hints() {
    assert_eq!(language_name("zh"), "Chinese");
    assert_eq!(language_name("sw"), "Swahili");
    assert_eq!(language_name("xx"), "xx");
    assert_eq!(language_hint(Some("auto")), None);
    assert_eq!(language_hint(Some("en")), Some("en"));
    assert_eq!(language_hint(None), None);
    assert_eq!(model_or_default(Some(""), "dflt"), "dflt");
    assert_eq!(model_or_default(Some("m"), "dflt"), "m");
    assert_eq!(model_or_default(None, "dflt"), "dflt");
}

#[test]
fn gemma_instruction() {
    assert_eq!(
        instruction_for(Some("ja")),
        "Transcribe the following speech in Japanese. Output only the verbatim Japanese transcription — no preamble, no translation, no commentary."
    );
    let auto = instruction_for(Some("auto"));
    assert!(auto.starts_with("Transcribe the following speech segment in its original language"));
    assert_eq!(instruction_for(None), auto);
}

#[test]
fn sse_payload_lines() {
    assert_eq!(
        sse_payload(r#"data: {"choices":[{"delta":{"content":"你好"}}]}"#),
        Some(r#"{"choices":[{"delta":{"content":"你好"}}]}"#)
    );
    assert_eq!(sse_payload("data: [DONE]"), None);
    assert_eq!(sse_payload(""), None);
    assert_eq!(sse_payload(": keep-alive comment"), None);
    assert_eq!(sse_payload("data:   "), None);
}

#[test]
fn deepgram_reply_first_alternative() {
    let reply = vec![vec!["hello world".to_string(), "hello word".to_string()], vec!["other".to_string()]];
    assert_eq!(deepgram_transcript(reply), Ok("hello world".to_string()));
    assert_eq!(deepgram_transcript(vec![]), Err(CloudError::NoTranscript));
    assert_eq!(deepgram_transcript(vec![vec![]]), Err(CloudError::NoTranscript));
}

#[test]
fn stream_buffer_yields_complete_lines() {
    let mut buf = b"data: a\ndata: \xe4\xbd".to_vec();
    assert_eq!(take_line(&mut buf), Some(b"data: a".to_vec()));
    // The rest of a split character has not arrived: nothing is taken.
    assert_eq!(take_line(&mut buf), None);
    assert_eq!(buf, b"data: \xe4\xbd".to_vec());
    buf.extend_from_slice(b"\xa0\n\n");
    assert_eq!(String::from_utf8(take_line(&mut buf).unwrap()).unwrap(), "data: 你");
    assert_eq!(take_line(&mut buf), Some(Vec::new()));
    assert!(buf.is_empty());
}
