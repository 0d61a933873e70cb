use vibeking::decimal::{parse_u64_chars, u64_to_decimal};
use vibeking::gemma_server::{
    clear_engine, engine_ready as gemma_engine_ready, legacy_marker_path, ready_marker_path, venv_python_path, health_path, health_reply_ok, idle_secs, is_preparing,
    is_running, mark_ready, parse_progress_line, register_spawned, reusable_port, set_idle_policy, should_unload,
    shutdown, sidecar_args, touch, venv_needs_rebuild, GemmaServer, DEFAULT_IDLE_SHUTDOWN_SECS, GEMMA_PORT,
};
use vibeking::local_parakeet::{
    classify_bias_token, engine_ready as parakeet_ready, prepare_progress, rebuild_bias_token, streaming_finish,
    EngineError, EngineState, TokenBias, EXPECTED_MODEL_SIZE_BYTES,
};
use vibeking::local_qwen3;
use vibeking::local_stt::{approx_token_count, model_exists, model_path, model_url, whisper_padded_len};
use vibeking::model_cmds::{managed_status, parse_engine, whisper_model_id, whisper_status, LocalEngine};
use vibeking::permissions::settings_pane_url;
use vibeking::stt::Provider;
use vibeking::transcript::StreamWindow;
use vibeking::warm::{should_warm, WarmTracker};

fn s(v: &[&str]) -> Vec<String> {
    v.iter().map(|x| x.to_string()).collect()
}

#[test]
fn decimal_write_and_read() {
    assert_eq!(u64_to_decimal(0), "0");
    assert_eq!(u64_to_decimal(51247), "51247");
    assert_eq!(u64_to_decimal(u64::MAX), "18446744073709551615");
    let parse = |t: &str| {
        let cs: Vec<char> = t.chars().collect();
        parse_u64_chars(&cs, 0, cs.len())
    };
    assert_eq!(parse("42"), Some(42));
    assert_eq!(parse("+7"), Some(7));
    assert_eq!(parse("007"), Some(7));
    assert_eq!(parse("18446744073709551615"), Some(u64::MAX));
    assert_eq!(parse("18446744073709551616"), None);
    assert_eq!(parse(""), None);
    assert_eq!(parse("+"), None);
    assert_eq!(parse("-1"), None);
    assert_eq!(parse("12a"), None);
    // Reading back what was written gives the number.
    for n in [0u64, 9, 10, 99, 51247, 1 << 40, u64::MAX] {
        let w = u64_to_decimal(n);
        assert_eq!(parse(&w), Some(n));
        assert_eq!(w, n.to_string());
    }
}

#[test]
fn progress_lines() {
    assert_eq!(parse_progress_line("PROGRESS 1024 8000000000"), Some((1024, 8_000_000_000)));
    assert_eq!(parse_progress_line("PROGRESS   5\t10 extra"), Some((5, 10)));
    assert_eq!(parse_progress_line("PROGRESS 5"), None);
    assert_eq!(parse_progress_line("PROGRESS x 10"), None);
    assert_eq!(parse_progress_line("progress 5 10"), None);
    assert_eq!(parse_progress_line("Downloading..."), None);
}

#[test]
fn sidecar_command_line() {
    assert_eq!(
        sidecar_args("mlx-community/gemma", false, "/venv/gemma_stream_server.py"),
        s(&["-m", "mlx_vlm.server", "--model", "mlx-community/gemma", "--host", "127.0.0.1", "--port", "51247"])
    );
    assert_eq!(
        sidecar_args("m", true, "/venv/gemma_stream_server.py"),
        s(&["/venv/gemma_stream_server.py", "--model", "m", "--host", "127.0.0.1", "--port", "51247"])
    );
    assert_eq!(health_path(true), "/health");
    assert_eq!(health_path(false), "/v1/models");
}

#[test]
fn setup_and_health_checks() {
    let v = |xs: &[&str]| xs.iter().map(|x| x.to_string()).collect::<Vec<String>>();
    let venv = "/data/gemma-venv";
    assert_eq!(venv_python_path(venv), "/data/gemma-venv/bin/python3");
    assert_eq!(ready_marker_path(venv), "/data/gemma-venv/.deps-ready-uv1");
    assert_eq!(legacy_marker_path(venv), "/data/gemma-venv/.mlx-vlm-installed");
    assert!(gemma_engine_ready(venv, &v(&["/data/gemma-venv/bin/python3", "/data/gemma-venv/.deps-ready-uv1"])));
    assert!(!gemma_engine_ready(venv, &v(&["/data/gemma-venv/bin/python3"])));
    // A pre-uv environment with only the legacy marker is not ready.
    assert!(!gemma_engine_ready(venv, &v(&["/data/gemma-venv/bin/python3", "/data/gemma-venv/.mlx-vlm-installed"])));
    assert!(venv_needs_rebuild(true, false, false));
    assert!(venv_needs_rebuild(true, true, true));
    assert!(!venv_needs_rebuild(true, true, false));
    assert!(!venv_needs_rebuild(false, false, true));
    assert!(health_reply_ok(false, true, "{\"data\":[]}"));
    assert!(health_reply_ok(true, true, "{\"ok\":true}"));
    assert!(!health_reply_ok(true, true, "{\"status\":\"healthy\"}"));
    assert!(!health_reply_ok(false, false, ""));
}

#[test]
fn sidecar_lifecycle() {
    let mut g = GemmaServer::new();
    assert!(!is_running(&g) && !is_preparing(&g));
    assert_eq!(g.idle_shutdown_secs, DEFAULT_IDLE_SHUTDOWN_SECS);
    assert_eq!(idle_secs(&g, 10_000), None);
    register_spawned(&mut g, "m", true);
    assert!(is_running(&g));
    // Not health-confirmed yet: never handed out.
    assert_eq!(reusable_port(&g, "m", true, true), None);
    mark_ready(&mut g);
    assert_eq!(reusable_port(&g, "m", true, true), Some(GEMMA_PORT));
    assert_eq!(reusable_port(&g, "m", false, true), None);
    assert_eq!(reusable_port(&g, "other", true, true), None);
    assert_eq!(reusable_port(&g, "m", true, false), None);
    touch(&mut g, 1_000);
    assert_eq!(idle_secs(&g, 62_500), Some(61));
    assert!(!should_unload(&g, 1_000 + 899_999));
    assert!(should_unload(&g, 1_000 + 900_000));
    set_idle_policy(&mut g, 0);
    assert!(!should_unload(&g, u64::MAX));
    let stopped = shutdown(&mut g);
    assert_eq!(stopped.map(|s| s.model), Some("m".to_string()));
    assert!(!is_running(&g));
    register_spawned(&mut g, "m", false);
    assert!(clear_engine(&mut g).is_some());
    assert!(!is_running(&g));
}

#[test]
fn exact_hotword_takes_its_casing() {
    let terms = s(&["Kubernetes", "Tauri"]);
    assert_eq!(classify_bias_token("kubernetes,", &terms), TokenBias::Exact(0));
    assert_eq!(rebuild_bias_token("kubernetes,", &terms[0]), "Kubernetes,");
    assert_eq!(rebuild_bias_token("(tauri)", &terms[1]), "(Tauri)");
}

#[test]
fn short_and_whitespace_tokens_are_kept() {
    let terms = s(&["Kube"]);
    assert_eq!(classify_bias_token("  ", &terms), TokenBias::Keep);
    assert_eq!(classify_bias_token("k8s", &terms), TokenBias::Keep);
    assert_eq!(classify_bias_token("...", &terms), TokenBias::Keep);
    assert_eq!(classify_bias_token("kubernetes", &terms), TokenBias::TryFuzzy);
    assert_eq!(classify_bias_token("kube!", &terms), TokenBias::Exact(0));
    assert_eq!(classify_bias_token("kubernetes", &[]), TokenBias::TryFuzzy);
}

#[test]
fn parakeet_engine_state() {
    let st = EngineState { cached: false, preparing: true };
    assert!(!parakeet_ready(&st, 0));
    assert!(parakeet_ready(&st, 400 * 1024 * 1024));
    assert_eq!(prepare_progress(10, false), 10);
    assert_eq!(prepare_progress(u64::MAX, false), EXPECTED_MODEL_SIZE_BYTES - 1);
    assert_eq!(prepare_progress(10, true), EXPECTED_MODEL_SIZE_BYTES);
    assert!(matches!(streaming_finish(&st, Ok("x".to_string())), Err(EngineError::NotStarted)));
    let loaded = EngineState { cached: true, preparing: false };
    assert!(matches!(streaming_finish(&loaded, Ok("x".to_string())), Ok(t) if t == "x"));
    assert!(matches!(streaming_finish(&loaded, Err("boom".to_string())), Err(EngineError::Failed(e)) if e == "boom"));
}

#[test]
fn qwen3_finish_keeps_committed_windows() {
    let mut w = StreamWindow::new(Some("en".to_string()));
    assert!(!w.record_feed(16_000, true));
    assert_eq!(w.roll("first window"), "first window");
    let tail = local_qwen3::streaming_finish(Some(w), Ok("  and the tail ".to_string()));
    assert!(matches!(tail, Ok(t) if t == "first window and the tail"));
    let mut w2 = StreamWindow::new(None);
    w2.roll("kept");
    assert!(matches!(local_qwen3::streaming_finish(Some(w2), Err("closed".to_string())), Ok(t) if t == "kept"));
    assert!(matches!(local_qwen3::streaming_finish(None, Ok(String::new())), Err(EngineError::NotStarted)));
    let st = EngineState { cached: false, preparing: false };
    assert!(local_qwen3::engine_ready(&st, 3 * 1024 * 1024 * 1024));
    assert!(!local_qwen3::engine_ready(&st, 1024));
}

#[test]
fn whisper_files_and_padding() {
    assert_eq!(
        model_url("ggml-base"),
        "https://huggingface.co/ggerganov/whisper.cpp/resolve/main/ggml-base.bin?download=true"
    );
    assert_eq!(model_path("/models", "ggml-base"), "/models/ggml-base.bin");
    assert_eq!(model_path("/models/", "ggml-base"), "/models/ggml-base.bin");
    assert_eq!(model_path("/m", "/x"), "/x.bin");
    assert!(model_exists(Some(10)));
    assert!(!model_exists(Some(0)));
    assert!(!model_exists(None));
    assert_eq!(whisper_padded_len(8_000), 17_600);
    assert_eq!(whisper_padded_len(15_999), 17_600);
    assert_eq!(whisper_padded_len(16_000), 16_000);
    assert_eq!(approx_token_count(""), 0);
    assert_eq!(approx_token_count("abcdefg"), 2);
    assert_eq!(approx_token_count("abc"), 1);
}

#[test]
fn model_commands() {
    assert_eq!(parse_engine(None), Ok(LocalEngine::Whisper));
    assert_eq!(parse_engine(Some("gemma")), Ok(LocalEngine::Gemma));
    assert_eq!(parse_engine(Some("vosk")), Err("unknown engine: vosk".to_string()));
    assert_eq!(whisper_model_id(None), "ggml-large-v3-turbo-q5_0");
    assert_eq!(whisper_model_id(Some("ggml-base".to_string())), "ggml-base");
    let st = whisper_status("id".to_string(), true, "/p".to_string(), "whisper".to_string());
    assert!(st.exists && !st.preparing);
    let m = managed_status("parakeet-tdt-v3", false, true, "parakeet".to_string());
    assert_eq!(m.id, "parakeet-tdt-v3");
    assert!(m.preparing && !m.exists && m.path.is_empty());
}

#[test]
fn permission_panes() {
    assert_eq!(
        settings_pane_url("microphone"),
        Ok("x-apple.systempreferences:com.apple.preference.security?Privacy_Microphone")
    );
    assert_eq!(settings_pane_url("camera"), Err("unknown settings pane: camera".to_string()));
}

#[test]
fn warm_generations() {
    assert!(should_warm(Provider::Gemma, true, false));
    assert!(!should_warm(Provider::Gemma, false, false));
    assert!(!should_warm(Provider::Gemma, true, true));
    assert!(!should_warm(Provider::Openai, true, false));
    let mut t = WarmTracker::new();
    let g1 = t.begin(Provider::Qwen3);
    let g2 = t.begin(Provider::Gemma);
    assert_ne!(g1, g2);
    // The superseded warm reports nothing and leaves the marker alone.
    assert!(!t.finish(g1));
    assert_eq!(t.current_warming(), Some(Provider::Gemma));
    assert!(t.finish(g2));
    assert_eq!(t.current_warming(), None);
}
