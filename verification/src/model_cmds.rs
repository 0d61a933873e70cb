//! Managing the local engines: which engine a command addresses, and the
//! status record reported for it.

use vstd::prelude::*;
use crate::text::str_eq;

verus! {

/// The engine a command addresses when none is named.
pub const DEFAULT_ENGINE: &'static str = "whisper";

/// A local speech engine.
#[derive(Debug, Clone, Copy, PartialEq, Eq, Structural)]
pub enum LocalEngine {
    Whisper,
    Parakeet,
    Qwen3,
    Gemma,
}

/// The engine a name selects; no name selects Whisper.
pub open spec fn spec_parse_engine(engine: Option<Seq<char>>) -> Option<LocalEngine> {
    let e = match engine { Some(x) => x, None => "whisper"@ };
    if e == "whisper"@ { Some(LocalEngine::Whisper) }
    else if e == "parakeet"@ { Some(LocalEngine::Parakeet) }
    else if e == "qwen3"@ { Some(LocalEngine::Qwen3) }
    else if e == "gemma"@ { Some(LocalEngine::Gemma) }
    else { None }
}

/// The engine a command names, or the message for an unknown one.
pub fn parse_engine(engine: Option<&str>) -> (r: Result<LocalEngine, String>)
    ensures
        match r {
            Ok(e) => spec_parse_engine(crate::state::opt_str(engine)) == Some(e),
            Err(msg) => spec_parse_engine(crate::state::opt_str(engine)) is None
                && msg@ == "unknown engine: "@ + (match engine { Some(x) => x@, None => "whisper"@ }),
        },
{
    let e = match engine {
        Some(x) => x,
        None => DEFAULT_ENGINE,
    };
    if str_eq(e, "whisper") {
        Ok(LocalEngine::Whisper)
    } else if str_eq(e, "parakeet") {
        Ok(LocalEngine::Parakeet)
    } else if str_eq(e, "qwen3") {
        Ok(LocalEngine::Qwen3)
    } else if str_eq(e, "gemma") {
        Ok(LocalEngine::Gemma)
    } else {
        let mut msg = "unknown engine: ".to_string();
        msg.append(e);
        Err(msg)
    }
}

/// The status of a local engine's model.
#[derive(Debug, Clone)]
pub struct ModelStatus {
    pub id: String,
    pub exists: bool,
    pub path: String,
    pub engine: String,
    /// True while the engine's prepare step is downloading or compiling.
    pub preparing: bool,
}

/// The Whisper model a command addresses: the one named, else the default.
pub fn whisper_model_id(model_id: Option<String>) -> (id: String)
    ensures
        id@ == (match model_id { Some(m) => m@, None => crate::local_stt::DEFAULT_MODEL_ID@ }),
{
    match model_id {
        Some(m) => m,
        None => crate::local_stt::DEFAULT_MODEL_ID.to_string(),
    }
}

/// The status of a Whisper model: whether its file is there and where.
pub fn whisper_status(id: String, exists: bool, path: String, engine: String) -> (s: ModelStatus)
    ensures
        s.id == id && s.exists == exists && s.path == path && s.engine == engine && !s.preparing,
{
    ModelStatus { id, exists, path, engine, preparing: false }
}

/// The status of an engine-managed model (Parakeet, Qwen3, Gemma): it has
/// no single file path; `ready` and `preparing` are the engine's own.
pub fn managed_status(engine_id: &str, ready: bool, preparing: bool, engine: String) -> (s: ModelStatus)
    ensures
        s.id@ == engine_id@ && s.exists == ready && s.path@.len() == 0 && s.engine == engine && s.preparing == preparing,
{
    ModelStatus { id: engine_id.to_string(), exists: ready, path: String::new(), engine, preparing }
}

} // verus!
