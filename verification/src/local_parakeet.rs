//! The Parakeet engine's state as the application tracks it: whether the
//! warm engine is loaded or its files are on disk, whether a prepare is
//! running, and the progress shown while it downloads; and the word-level
//! hotword substitution applied to its transcripts.

use vstd::prelude::*;
use crate::text::{chars_of, lowercase_of, str_eq, str_to_lowercase, strs};
use crate::transcript::{all_whitespace, is_whitespace_only, spec_strip_edge_punct, strip_edge_punct};

verus! {

/// Engine id reported for Parakeet transcripts.
pub const ENGINE_ID: &'static str = "parakeet-tdt-v3";

/// How hotwords bias Parakeet: substitution after decoding.
pub const BIAS_MODE_HINT: &'static str = "post-hoc substitution, not acoustic";

/// Most hotword and context terms considered for substitution.
pub const BIAS_TERM_CAP: usize = 200;

/// Characters a token needs before fuzzy matching applies to it.
pub const MIN_TOKEN_LEN_FOR_FUZZY: usize = 4;

/// On-disk bytes that count as a complete model download.
pub const COMPLETED_CACHE_THRESHOLD_BYTES: u64 = 400 * 1024 * 1024;

/// Approximate size of the downloaded model, the progress bar's total.
pub const EXPECTED_MODEL_SIZE_BYTES: u64 = 500 * 1024 * 1024;

/// Samples of silence put before a clip so the engine's voice detection can
/// calibrate (half a second at 16 kHz).
pub const PARAKEET_LEADING_SILENCE_SAMPLES: usize = 8000;

/// The engine handle's state: loaded in memory, and prepare running.
pub struct EngineState {
    pub cached: bool,
    pub preparing: bool,
}

/// Ready means no download stands in the way: the engine is loaded, or its
/// files are on disk.
pub fn engine_ready(state: &EngineState, cache_size_bytes: u64) -> (r: bool)
    ensures
        r == (state.cached || cache_size_bytes >= COMPLETED_CACHE_THRESHOLD_BYTES),
{
    state.cached || cache_size_bytes >= COMPLETED_CACHE_THRESHOLD_BYTES
}

/// Whether a prepare is running.
pub fn is_preparing(state: &EngineState) -> (r: bool)
    ensures
        r == state.preparing,
{
    state.preparing
}

/// The progress reported while preparing, from the bytes on disk: capped
/// below the total until the engine has loaded, the total once it has.
pub fn prepare_progress(on_disk: u64, finished: bool) -> (p: u64)
    ensures
        finished ==> p == EXPECTED_MODEL_SIZE_BYTES,
        !finished ==> p == (if on_disk < EXPECTED_MODEL_SIZE_BYTES - 1 { on_disk } else { (EXPECTED_MODEL_SIZE_BYTES - 1) as u64 }),
{
    if finished {
        return EXPECTED_MODEL_SIZE_BYTES;
    }
    let capped = if on_disk < EXPECTED_MODEL_SIZE_BYTES { on_disk } else { EXPECTED_MODEL_SIZE_BYTES };
    if capped < EXPECTED_MODEL_SIZE_BYTES - 1 { capped } else { EXPECTED_MODEL_SIZE_BYTES - 1 }
}

/// Why an engine call could not be made or failed.
#[derive(Debug, Clone)]
pub enum EngineError {
    /// No engine is loaded to stream with.
    NotStarted,
    /// The engine reported this failure.
    Failed(String),
}

/// Finish the streaming session: without a loaded engine there is nothing
/// to finish; otherwise the engine's answer (`finished`) is passed on.
pub fn streaming_finish(state: &EngineState, finished: Result<String, String>) -> (r: Result<String, EngineError>)
    ensures
        !state.cached ==> (r matches Err(EngineError::NotStarted)),
        state.cached ==> match finished {
            Ok(t) => (r matches Ok(x) && x == t),
            Err(e) => (r matches Err(EngineError::Failed(x)) && x == e),
        },
{
    if !state.cached {
        return Err(EngineError::NotStarted);
    }
    match finished {
        Ok(t) => Ok(t),
        Err(e) => Err(EngineError::Failed(e)),
    }
}

/// Drop the loaded engine before its cache directories are removed.
pub fn clear_engine_cache(state: &mut EngineState)
    ensures
        !final(state).cached,
        final(state).preparing == old(state).preparing,
{
    state.cached = false;
}

/// How a transcript token is treated by hotword substitution.
#[derive(Debug, Clone, Copy, PartialEq, Eq, Structural)]
pub enum TokenBias {
    /// Left as it is: whitespace, or a word too short to match.
    Keep,
    /// Its word equals this hotword but for case: it takes the hotword's
    /// casing.
    Exact(usize),
    /// No hotword equals it: a similarity match may apply.
    TryFuzzy,
}

/// Index of the first term whose lowercase form is `lower`, from `i` on.
pub open spec fn first_lower_from(terms: Seq<Seq<char>>, lower: Seq<char>, i: int) -> Option<int>
    decreases terms.len() - i,
{
    if i < 0 || i >= terms.len() {
        None
    } else if lowercase_of(terms[i]) == lower {
        Some(i)
    } else {
        first_lower_from(terms, lower, i + 1)
    }
}

/// The treatment of `token` (a word with its edge punctuation, or a
/// whitespace run) given the hotwords `terms`.
pub open spec fn spec_classify_bias_token(token: Seq<char>, terms: Seq<Seq<char>>) -> TokenBias {
    if all_whitespace(token) {
        TokenBias::Keep
    } else {
        let core = spec_strip_edge_punct(token).1;
        if core.len() < MIN_TOKEN_LEN_FOR_FUZZY {
            TokenBias::Keep
        } else {
            match first_lower_from(terms, lowercase_of(core), 0) {
                Some(i) => TokenBias::Exact(i as usize),
                None => TokenBias::TryFuzzy,
            }
        }
    }
}

proof fn lemma_first_lower_from(terms: Seq<Seq<char>>, lower: Seq<char>, i: int)
    requires
        0 <= i <= terms.len(),
    ensures
        first_lower_from(terms, lower, i) matches Some(k) ==> i <= k < terms.len(),
    decreases terms.len() - i,
{
    if i < terms.len() && lowercase_of(terms[i]) != lower {
        lemma_first_lower_from(terms, lower, i + 1);
    }
}

/// Classify a transcript token for hotword substitution.
pub fn classify_bias_token(token: &str, bias_terms: &[String]) -> (r: TokenBias)
    ensures
        r == spec_classify_bias_token(token@, strs(bias_terms@)),
        r matches TokenBias::Exact(i) ==> i < bias_terms@.len(),
{
    if is_whitespace_only(token) {
        return TokenBias::Keep;
    }
    let (_lead, core, _trail) = strip_edge_punct(token);
    let core_chars = chars_of(core);
    if core_chars.len() < MIN_TOKEN_LEN_FOR_FUZZY {
        return TokenBias::Keep;
    }
    let core_lower = str_to_lowercase(core);
    let ghost terms = strs(bias_terms@);
    proof {
        lemma_first_lower_from(terms, lowercase_of(core@), 0);
    }
    let mut i: usize = 0;
    while i < bias_terms.len()
        invariant
            i <= bias_terms@.len(),
            terms == strs(bias_terms@),
            terms.len() == bias_terms@.len(),
            core_lower@ == lowercase_of(core@),
            core@ == spec_strip_edge_punct(token@).1,
            !all_whitespace(token@),
            core@.len() >= MIN_TOKEN_LEN_FOR_FUZZY,
            first_lower_from(terms, core_lower@, 0) == first_lower_from(terms, core_lower@, i as int),
        decreases bias_terms@.len() - i,
    {
        let term_lower = str_to_lowercase(bias_terms[i].as_str());
        assert(terms[i as int] == bias_terms@[i as int]@);
        if str_eq(term_lower.as_str(), core_lower.as_str()) {
            assert(first_lower_from(terms, core_lower@, i as int) == Some(i as int));
            return TokenBias::Exact(i);
        }
        i = i + 1;
    }
    TokenBias::TryFuzzy
}

/// The token with its word replaced by `replacement`, its edge punctuation
/// kept.
pub fn rebuild_bias_token(token: &str, replacement: &str) -> (r: String)
    ensures
        r@ == spec_strip_edge_punct(token@).0 + replacement@ + spec_strip_edge_punct(token@).2,
{
    let (lead, _core, trail) = strip_edge_punct(token);
    let mut out = lead.to_string();
    out.append(replacement);
    out.append(trail);
    out
}

/// A token that already names a hotword keeps its punctuation and takes the
/// hotword's exact spelling.
pub proof fn law_exact_match_takes_hotword(token: Seq<char>, terms: Seq<Seq<char>>)
    requires
        terms.len() <= usize::MAX,
        spec_classify_bias_token(token, terms) matches TokenBias::Exact(i),
    ensures
        ({
            let i = spec_classify_bias_token(token, terms)->Exact_0 as int;
            &&& 0 <= i < terms.len()
            &&& lowercase_of(terms[i]) == lowercase_of(spec_strip_edge_punct(token).1)
        }),
{
    let core = spec_strip_edge_punct(token).1;
    lemma_first_lower_from(terms, lowercase_of(core), 0);
    lemma_first_lower_hit(terms, lowercase_of(core), 0);
}

proof fn lemma_first_lower_hit(terms: Seq<Seq<char>>, lower: Seq<char>, i: int)
    requires
        0 <= i <= terms.len(),
    ensures
        first_lower_from(terms, lower, i) matches Some(k) ==> lowercase_of(terms[k]) == lower,
    decreases terms.len() - i,
{
    if i < terms.len() && lowercase_of(terms[i]) != lower {
        lemma_first_lower_hit(terms, lower, i + 1);
    }
}

} // verus!
