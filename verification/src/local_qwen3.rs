//! The Qwen3 engine's state as the application tracks it, and the end of a
//! rolling-window streaming session.

use vstd::prelude::*;
use crate::local_parakeet::{EngineError, EngineState};
use crate::transcript::{spec_append_segment, StreamWindow};
use crate::text::trim_ws;

verus! {

/// Engine id reported for Qwen3 transcripts.
pub const ENGINE_ID: &'static str = "qwen3-asr-0.6b";

/// On-disk bytes that count as a complete model download.
pub const COMPLETED_CACHE_THRESHOLD_BYTES: u64 = 3 * 1024 * 1024 * 1024;

/// Approximate size of the downloaded model.
pub const EXPECTED_MODEL_SIZE_BYTES: u64 = 4 * 1024 * 1024 * 1024;

/// Ready means the engine is loaded or its files are on disk.
pub fn engine_ready(state: &EngineState, cache_size_bytes: u64) -> (r: bool)
    ensures
        r == (state.cached || cache_size_bytes >= COMPLETED_CACHE_THRESHOLD_BYTES),
{
    state.cached || cache_size_bytes >= COMPLETED_CACHE_THRESHOLD_BYTES
}

/// Whether a prepare is running.
pub fn is_preparing(state: &EngineState) -> (r: bool)
    ensures
        r == state.preparing,
{
    state.preparing
}

/// End the streaming session. Without an open window there is nothing to
/// finish. Otherwise the last window's tail, when it finished cleanly, is
/// appended; a failed tail does not lose the windows already committed.
pub fn streaming_finish(window: Option<StreamWindow>, tail: Result<String, String>) -> (r: Result<String, EngineError>)
    ensures
        match window {
            None => r matches Err(EngineError::NotStarted),
            Some(w) => r matches Ok(t) && t@ == trim_ws(match tail {
                Ok(x) => spec_append_segment(w.committed@, trim_ws(trim_ws(x@))),
                Err(_) => w.committed@,
            }),
        },
{
    match window {
        None => Err(EngineError::NotStarted),
        Some(w) => match tail {
            Ok(t) => {
                let trimmed = crate::text::trim_whitespace(t.as_str());
                Ok(w.finish(Some(trimmed)))
            },
            Err(_) => Ok(w.finish(None)),
        },
    }
}

/// Drop the loaded engine before its model directory is removed.
pub fn clear_engine_cache(state: &mut EngineState)
    ensures
        !final(state).cached,
        final(state).preparing == old(state).preparing,
{
    state.cached = false;
}

} // verus!
