//! The Gemma sidecar's lifecycle: whether it is installed or must be
//! rebuilt, how setup reports progress, which command starts it, when it is
//! reused, idle long enough to unload, and shut down. Spawning the process,
//! health requests and file removal live with the application.

use vstd::prelude::*;
use crate::decimal::{spec_parse_u64, parse_u64_chars, u64_to_decimal, decimal};
use crate::local_stt::{join_path, path_joined};
use crate::text::{chars_of, chars_start_with, contains_seq, contains_str, find_word, next_word, seq_starts_with, str_contains, str_eq};

verus! {

/// Engine id reported for Gemma transcripts.
pub const ENGINE_ID: &'static str = "gemma-4";

/// The model served when none is chosen.
pub const DEFAULT_MODEL: &'static str = "mlx-community/gemma-4-E4B-it-4bit";

/// Loopback port of the sidecar.
pub const GEMMA_PORT: u16 = 51247;

/// Seconds of idle before the sidecar unloads, unless configured.
pub const DEFAULT_IDLE_SHUTDOWN_SECS: u64 = 900;

/// Python module of the stateless server.
pub const SERVER_MODULE: &'static str = "mlx_vlm.server";

/// Health path of the stateless server.
pub const HEALTH_PATH: &'static str = "/v1/models";

/// Script of the streaming session server, deployed into the environment.
pub const STREAM_SERVER_PY: &'static str = "gemma_stream_server.py";

/// Health path of the streaming session server.
pub const STREAM_HEALTH_PATH: &'static str = "/health";

/// Seconds a freshly spawned sidecar has to pass its health check (the first
/// start may download the model).
pub const HEALTH_TIMEOUT_SECS: u64 = 1200;

/// The managed Python version the environment is built with.
pub const MANAGED_PYTHON: &'static str = "3.11";

/// The health path for the requested mode.
pub fn health_path(streaming: bool) -> (p: &'static str)
    ensures
        p@ == (if streaming { STREAM_HEALTH_PATH@ } else { HEALTH_PATH@ }),
{
    if streaming { STREAM_HEALTH_PATH } else { HEALTH_PATH }
}

/// Whether setup must wipe an existing environment first: one built before
/// the managed-Python installer (no current marker, or the legacy marker
/// present) may hold an incompatible interpreter.
pub fn venv_needs_rebuild(venv_exists: bool, marker_exists: bool, legacy_marker_exists: bool) -> (r: bool)
    ensures
        r == (venv_exists && (!marker_exists || legacy_marker_exists)),
{
    venv_exists && (!marker_exists || legacy_marker_exists)
}

/// The byte counts in a download progress line `PROGRESS <done> <total>`:
/// the first two whitespace-separated words after the prefix, both read as
/// unsigned numbers; none for any other line.
pub open spec fn spec_progress_line(line: Seq<char>) -> Option<(u64, u64)> {
    if seq_starts_with(line, "PROGRESS "@) {
        match next_word(line, "PROGRESS "@.len() as int) {
            Some((a1, b1)) => match next_word(line, b1) {
                Some((a2, b2)) => match (spec_parse_u64(line.subrange(a1, b1)), spec_parse_u64(line.subrange(a2, b2))) {
                    (Some(d), Some(t)) => Some((d, t)),
                    _ => None,
                },
                None => None,
            },
            None => None,
        }
    } else {
        None
    }
}

/// Read a progress line printed by the model prefetch.
pub fn parse_progress_line(line: &str) -> (r: Option<(u64, u64)>)
    ensures
        r == spec_progress_line(line@),
{
    let cs = chars_of(line);
    let prefix = chars_of("PROGRESS ");
    if !chars_start_with(&cs, &prefix) {
        return None;
    }
    let (a1, b1) = match find_word(cs.as_slice(), prefix.len()) {
        Some(w) => w,
        None => return None,
    };
    let (a2, b2) = match find_word(cs.as_slice(), b1) {
        Some(w) => w,
        None => return None,
    };
    let d = parse_u64_chars(cs.as_slice(), a1, b1);
    let t = parse_u64_chars(cs.as_slice(), a2, b2);
    match (d, t) {
        (Some(d), Some(t)) => Some((d, t)),
        _ => None,
    }
}

/// The command-line arguments after the environment's Python that start the
/// sidecar for `model` on the loopback port: the streaming session script
/// (at `stream_script`) or the stateless server module.
pub open spec fn spec_sidecar_args(model: Seq<char>, streaming: bool, stream_script: Seq<char>) -> Seq<Seq<char>> {
    let head = if streaming { seq![stream_script] } else { seq!["-m"@, SERVER_MODULE@] };
    head + seq!["--model"@, model, "--host"@, "127.0.0.1"@, "--port"@, decimal(GEMMA_PORT as nat)]
}

/// Build the sidecar's arguments.
pub fn sidecar_args(model: &str, streaming: bool, stream_script: &str) -> (v: Vec<String>)
    ensures
        v@.map_values(|a: String| a@) == spec_sidecar_args(model@, streaming, stream_script@),
{
    let mut v: Vec<String> = Vec::new();
    if streaming {
        v.push(stream_script.to_string());
    } else {
        v.push("-m".to_string());
        v.push(SERVER_MODULE.to_string());
    }
    v.push("--model".to_string());
    v.push(model.to_string());
    v.push("--host".to_string());
    v.push("127.0.0.1".to_string());
    v.push("--port".to_string());
    v.push(u64_to_decimal(GEMMA_PORT as u64));
    assert(v@.map_values(|a: String| a@) =~= spec_sidecar_args(model@, streaming, stream_script@));
    v
}

/// The running sidecar as tracked: its port, model and mode, and whether its
/// health check has passed since it was spawned.
#[derive(Debug, Clone)]
pub struct RunningServer {
    pub port: u16,
    pub model: String,
    pub streaming: bool,
    pub ready: bool,
}

/// The sidecar's tracked state.
pub struct GemmaServer {
    pub server: Option<RunningServer>,
    pub preparing: bool,
    pub last_used_ms: Option<u64>,
    pub idle_shutdown_secs: u64,
}

impl GemmaServer {
    /// Nothing running, nothing prepared, the default idle policy.
    pub fn new() -> (s: Self)
        ensures
            s.server is None,
            !s.preparing,
            s.last_used_ms is None,
            s.idle_shutdown_secs == DEFAULT_IDLE_SHUTDOWN_SECS,
    {
        GemmaServer { server: None, preparing: false, last_used_ms: None, idle_shutdown_secs: DEFAULT_IDLE_SHUTDOWN_SECS }
    }
}

/// The environment's Python, relative to the environment directory.
pub const VENV_PYTHON: &'static str = "bin/python3";

/// Marker written once the dependencies and the model are in place.
pub const READY_MARKER: &'static str = ".deps-ready-uv1";

/// Marker left by environments built before the managed-Python installer.
pub const LEGACY_MARKER: &'static str = ".mlx-vlm-installed";

/// The environment's Python inside the environment directory `venv`.
pub fn venv_python_path(venv: &str) -> (p: String)
    ensures
        p@ == path_joined(venv@, VENV_PYTHON@),
        venv@.len() > 0 && venv@.last() != '/' ==> p@ == venv@ + "/"@ + VENV_PYTHON@,
{
    proof {
        reveal_strlit("bin/python3");
        assert(VENV_PYTHON@ == "bin/python3"@);
        assert(VENV_PYTHON@.len() > 0 && VENV_PYTHON@[0] != '/');
    }
    join_path(venv, VENV_PYTHON)
}

/// The readiness marker inside the environment directory `venv`.
pub fn ready_marker_path(venv: &str) -> (p: String)
    ensures
        p@ == path_joined(venv@, READY_MARKER@),
        venv@.len() > 0 && venv@.last() != '/' ==> p@ == venv@ + "/"@ + READY_MARKER@,
{
    proof {
        reveal_strlit(".deps-ready-uv1");
        assert(READY_MARKER@ == ".deps-ready-uv1"@);
        assert(READY_MARKER@.len() > 0 && READY_MARKER@[0] != '/');
    }
    join_path(venv, READY_MARKER)
}

/// The legacy marker inside the environment directory `venv`.
pub fn legacy_marker_path(venv: &str) -> (p: String)
    ensures
        p@ == path_joined(venv@, LEGACY_MARKER@),
        venv@.len() > 0 && venv@.last() != '/' ==> p@ == venv@ + "/"@ + LEGACY_MARKER@,
{
    proof {
        reveal_strlit(".mlx-vlm-installed");
        assert(LEGACY_MARKER@ == ".mlx-vlm-installed"@);
        assert(LEGACY_MARKER@.len() > 0 && LEGACY_MARKER@[0] != '/');
    }
    join_path(venv, LEGACY_MARKER)
}

/// Whether `path` is one of `existing`.
pub open spec fn listed(existing: Seq<String>, path: Seq<char>) -> bool {
    exists|k: int| 0 <= k < existing.len() && (#[trigger] existing[k])@ == path
}

/// Installed and ready: the environment's Python and the readiness marker
/// both exist; the marker is written only after the model download.
pub open spec fn spec_engine_ready(venv: Seq<char>, existing: Seq<String>) -> bool {
    listed(existing, path_joined(venv, VENV_PYTHON@)) && listed(existing, path_joined(venv, READY_MARKER@))
}

/// `spec_engine_ready` for an environment directory that is not empty and
/// does not end in `/`, where joining adds one separator.
pub open spec fn ready_in_dir(venv: Seq<char>, existing: Seq<String>) -> bool {
    listed(existing, venv + "/"@ + VENV_PYTHON@) && listed(existing, venv + "/"@ + READY_MARKER@)
}

/// Whether the Gemma environment in `venv` is installed and ready, given the
/// paths that exist on disk (`existing`). Whether the sidecar is running
/// does not enter into it.
pub fn engine_ready(venv: &str, existing: &Vec<String>) -> (r: bool)
    ensures
        r == spec_engine_ready(venv@, existing@),
        venv@.len() > 0 && venv@.last() != '/' ==> r == ready_in_dir(venv@, existing@),
{
    let py = venv_python_path(venv);
    let marker = ready_marker_path(venv);
    contains_str(existing, py.as_str()) && contains_str(existing, marker.as_str())
}

/// An environment holding only the legacy marker is not ready: with nothing
/// on disk but the Python and the legacy marker, it is not ready.
pub proof fn law_legacy_only_not_ready(venv: Seq<char>, existing: Seq<String>)
    requires
        forall|k: int| 0 <= k < existing.len() ==> {
            ||| (#[trigger] existing[k])@ == venv + "/"@ + VENV_PYTHON@
            ||| existing[k]@ == venv + "/"@ + LEGACY_MARKER@
        },
    ensures
        !ready_in_dir(venv, existing),
{
    reveal_strlit("bin/python3");
    reveal_strlit(".deps-ready-uv1");
    reveal_strlit(".mlx-vlm-installed");
    let py = venv + "/"@ + VENV_PYTHON@;
    let mk = venv + "/"@ + READY_MARKER@;
    let lg = venv + "/"@ + LEGACY_MARKER@;
    assert(py.len() != mk.len());
    assert(lg.len() != mk.len());
    if listed(existing, mk) {
        let k = choose|k: int| 0 <= k < existing.len() && (#[trigger] existing[k])@ == mk;
        assert(existing[k]@ == py || existing[k]@ == lg);
    }
}

/// Whether setup is running.
pub fn is_preparing(s: &GemmaServer) -> (r: bool)
    ensures
        r == s.preparing,
{
    s.preparing
}

/// Whether a sidecar is tracked as running.
pub fn is_running(s: &GemmaServer) -> (r: bool)
    ensures
        r == s.server is Some,
{
    s.server.is_some()
}

/// Apply the memory policy: unload after `idle_secs` idle seconds; zero
/// keeps the sidecar resident.
pub fn set_idle_policy(s: &mut GemmaServer, idle_secs: u64)
    ensures
        final(s).idle_shutdown_secs == idle_secs,
        final(s).server == old(s).server,
        final(s).preparing == old(s).preparing,
        final(s).last_used_ms == old(s).last_used_ms,
{
    s.idle_shutdown_secs = idle_secs;
}

/// Note a use of the sidecar at `now_ms`.
pub fn touch(s: &mut GemmaServer, now_ms: u64)
    ensures
        final(s).last_used_ms == Some(now_ms),
        final(s).server == old(s).server,
        final(s).preparing == old(s).preparing,
        final(s).idle_shutdown_secs == old(s).idle_shutdown_secs,
{
    s.last_used_ms = Some(now_ms);
}

/// Milliseconds from `since` to `now`, zero if `now` is earlier.
pub open spec fn elapsed(since: u64, now: u64) -> nat {
    if now >= since { (now - since) as nat } else { 0 }
}

/// Whole seconds since the last use, or none before the first use.
pub fn idle_secs(s: &GemmaServer, now_ms: u64) -> (r: Option<u64>)
    ensures
        match s.last_used_ms {
            Some(t) => r == Some((elapsed(t, now_ms) / 1000) as u64),
            None => r is None,
        },
{
    match s.last_used_ms {
        Some(t) => {
            let e = if now_ms >= t { now_ms - t } else { 0 };
            Some(e / 1000)
        },
        None => None,
    }
}

/// The port of a running sidecar that can be reused for `model` in the
/// requested mode: same model and mode, health confirmed, and the process
/// still alive.
pub fn reusable_port(s: &GemmaServer, model: &str, streaming: bool, child_alive: bool) -> (r: Option<u16>)
    ensures
        r == spec_reusable(s.server, model@, streaming, child_alive),
{
    match &s.server {
        Some(srv) => {
            if str_eq(srv.model.as_str(), model) && srv.streaming == streaming && srv.ready && child_alive {
                Some(srv.port)
            } else {
                None
            }
        },
        None => None,
    }
}

/// Track a sidecar just spawned for `model` in the requested mode on the
/// loopback port, not yet health-confirmed.
pub fn register_spawned(s: &mut GemmaServer, model: &str, streaming: bool)
    ensures
        final(s).server matches Some(srv) && srv.port == GEMMA_PORT && srv.model@ == model@
            && srv.streaming == streaming && !srv.ready,
        final(s).preparing == old(s).preparing,
        final(s).last_used_ms == old(s).last_used_ms,
        final(s).idle_shutdown_secs == old(s).idle_shutdown_secs,
{
    s.server = Some(RunningServer { port: GEMMA_PORT, model: model.to_string(), streaming, ready: false });
}

/// The health check passed: the tracked sidecar may be handed out.
pub fn mark_ready(s: &mut GemmaServer)
    ensures
        match old(s).server {
            Some(srv) => final(s).server == Some(RunningServer { ready: true, ..srv }),
            None => final(s).server is None,
        },
        final(s).preparing == old(s).preparing,
        final(s).last_used_ms == old(s).last_used_ms,
        final(s).idle_shutdown_secs == old(s).idle_shutdown_secs,
{
    match &mut s.server {
        Some(srv) => {
            srv.ready = true;
        },
        None => {},
    }
}

/// The port a tracked sidecar may be reused on: same model and mode, health
/// confirmed, process alive.
pub open spec fn spec_reusable(server: Option<RunningServer>, model: Seq<char>, streaming: bool, child_alive: bool) -> Option<u16> {
    match server {
        Some(srv) => if srv.model@ == model && srv.streaming == streaming && srv.ready && child_alive {
            Some(srv.port)
        } else {
            None
        },
        None => None,
    }
}

/// A sidecar that has not passed its health check is never handed out,
/// however alive its process; once it passes, a caller asking for its model
/// and mode gets its port.
pub proof fn law_reuse_only_after_health(srv: RunningServer, child_alive: bool)
    requires
        !srv.ready,
    ensures
        spec_reusable(Some(srv), srv.model@, srv.streaming, child_alive) is None,
        spec_reusable(Some(RunningServer { ready: true, ..srv }), srv.model@, srv.streaming, true) == Some(srv.port),
{
}

/// A sidecar in the other mode is never reused: asking for streaming never
/// gets the stateless server, and the other way round.
pub proof fn law_mode_mismatch_not_reused(srv: RunningServer, model: Seq<char>, child_alive: bool)
    ensures
        spec_reusable(Some(srv), model, !srv.streaming, child_alive) is None,
{
}

/// Whether the idle watcher unloads the sidecar now: it is running, the
/// policy is finite, and it has been idle at least that long (never used
/// counts as idle from the start).
pub fn should_unload(s: &GemmaServer, now_ms: u64) -> (r: bool)
    ensures
        r == (s.server is Some && s.idle_shutdown_secs > 0 && (match s.last_used_ms {
            Some(t) => elapsed(t, now_ms),
            None => 0,
        }) >= s.idle_shutdown_secs as nat * 1000),
{
    if s.server.is_none() || s.idle_shutdown_secs == 0 {
        return false;
    }
    let idle_ms: u64 = match s.last_used_ms {
        Some(t) => if now_ms >= t { now_ms - t } else { 0 },
        None => 0,
    };
    if s.idle_shutdown_secs > u64::MAX / 1000 {
        return false;
    }
    idle_ms >= s.idle_shutdown_secs * 1000
}

/// Stop tracking the sidecar; returns the record so the caller can kill its
/// process.
pub fn shutdown(s: &mut GemmaServer) -> (r: Option<RunningServer>)
    ensures
        r == old(s).server,
        final(s).server is None,
        final(s).preparing == old(s).preparing,
        final(s).last_used_ms == old(s).last_used_ms,
        final(s).idle_shutdown_secs == old(s).idle_shutdown_secs,
{
    s.server.take()
}

/// Stop the sidecar before its environment and model cache are removed;
/// returns the record of the stopped sidecar.
pub fn clear_engine(s: &mut GemmaServer) -> (r: Option<RunningServer>)
    ensures
        r == old(s).server,
        final(s).server is None,
{
    shutdown(s)
}

/// Whether a health reply shows the expected sidecar: a success status, and
/// for the streaming sidecar a body carrying its `"ok"` marker (the stateless
/// server answers the same path without it).
pub fn health_reply_ok(streaming: bool, status_success: bool, body: &str) -> (r: bool)
    ensures
        r == (status_success && (!streaming || contains_seq(body@, "\"ok\""@))),
{
    if !status_success {
        return false;
    }
    if streaming {
        str_contains(body, "\"ok\"")
    } else {
        true
    }
}

} // verus!
