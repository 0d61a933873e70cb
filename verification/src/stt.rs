//! Speech-to-text providers: the provider registry, the request and result
//! records, merging of biasing terms, and the language instruction sent to the
//! instruction-tuned local engine.

use vstd::prelude::*;
use vstd::string::StrSliceExecFns;
use crate::text::{
    contains_str, distinct_lower, lower_seen, lowercase_of, str_eq, str_to_lowercase, strs,
    trim_whitespace, trim_ws, unicode_whitespace, lemma_trim_ws_edges,
};

verus! {

/// A speech-to-text engine, cloud or local.
#[derive(Debug, Clone, Copy, PartialEq, Eq, Structural)]
pub enum Provider {
    Deepgram,
    Groq,
    Openai,
    Elevenlabs,
    Local,
    FluidAudio,
    /// Local Qwen3-ASR: multilingual engine with live streaming.
    Qwen3,
    /// Local Gemma audio model behind an app-managed sidecar; clip based.
    Gemma,
}

/// One transcription request.
#[derive(Debug, Clone)]
pub struct TranscribeInput<'a> {
    pub wav: &'a [u8],
    pub api_key: &'a str,
    pub language: Option<&'a str>,
    pub hotwords: &'a [String],
    /// Proper-noun candidates from the focused window at recording start,
    /// merged with `hotwords` for the providers' biasing parameter.
    pub context_candidates: &'a [String],
    pub model: Option<&'a str>,
}

/// A transcription result.
#[derive(Debug, Clone)]
pub struct TranscribeOutput {
    pub text: String,
    pub provider: Provider,
    pub model: String,
}

/// Engines whose model must be loaded into memory before the first dictation
/// feels instant: Qwen3, Parakeet (FluidAudio) and Gemma. Cloud providers are
/// always reachable, and Whisper (`Local`) is loaded fresh per transcription.
pub open spec fn needs_warm(p: Provider) -> bool {
    p == Provider::Qwen3 || p == Provider::FluidAudio || p == Provider::Gemma
}

/// True for the local engines whose model and sidecar are worth loading ahead
/// of time; cloud providers and Whisper give false.
pub fn provider_needs_warm(provider: Provider) -> (r: bool)
    ensures
        r == needs_warm(provider),
{
    match provider {
        Provider::Qwen3 | Provider::FluidAudio | Provider::Gemma => true,
        _ => false,
    }
}

/// Merge the remaining `items` into `out`: each item is trimmed; empty ones
/// and ones whose lowercase form is already present are skipped; merging stops
/// once `out` holds `max` entries.
pub open spec fn merge_all(items: Seq<Seq<char>>, out: Seq<Seq<char>>, max: nat) -> Seq<Seq<char>>
    decreases items.len(),
{
    if items.len() == 0 || out.len() >= max {
        out
    } else {
        let t = trim_ws(items[0]);
        let next = if t.len() == 0 || lower_seen(out, lowercase_of(t)) {
            out
        } else {
            out.push(t)
        };
        merge_all(items.drop_first(), next, max)
    }
}

/// Hotwords followed by context terms, merged.
pub open spec fn spec_merge_bias_terms(hotwords: Seq<Seq<char>>, context: Seq<Seq<char>>, max: nat) -> Seq<Seq<char>> {
    merge_all(hotwords + context, Seq::empty(), max)
}

/// Entries are nonempty and carry no edge whitespace.
pub open spec fn all_trimmed(out: Seq<Seq<char>>) -> bool {
    forall|k: int| 0 <= k < out.len() ==> {
        &&& (#[trigger] out[k]).len() > 0
        &&& !unicode_whitespace(out[k][0])
        &&& !unicode_whitespace(out[k].last())
    }
}

proof fn lemma_merge_all(items: Seq<Seq<char>>, out: Seq<Seq<char>>, max: nat)
    requires
        out.len() <= max,
        distinct_lower(out),
        all_trimmed(out),
    ensures
        merge_all(items, out, max).len() <= max,
        distinct_lower(merge_all(items, out, max)),
        all_trimmed(merge_all(items, out, max)),
        merge_all(items, out, max).len() >= out.len(),
        merge_all(items, out, max).take(out.len() as int) == out,
    decreases items.len(),
{
    if items.len() == 0 || out.len() >= max {
        assert(out.take(out.len() as int) =~= out);
    } else {
        let t = trim_ws(items[0]);
        let next = if t.len() == 0 || lower_seen(out, lowercase_of(t)) { out } else { out.push(t) };
        if next != out {
            lemma_trim_ws_edges(items[0]);
            assert forall|i: int, j: int| 0 <= i < j < next.len() implies lowercase_of(#[trigger] next[i]) != lowercase_of(#[trigger] next[j]) by {
                assert(next[i] == out[i]);
                if j == out.len() {
                    if lowercase_of(out[i]) == lowercase_of(t) {
                        assert(lower_seen(out, lowercase_of(t)));
                    }
                } else {
                    assert(next[j] == out[j]);
                }
            }
            assert forall|k: int| 0 <= k < next.len() implies {
                &&& (#[trigger] next[k]).len() > 0
                &&& !unicode_whitespace(next[k][0])
                &&& !unicode_whitespace(next[k].last())
            } by {
                if k < out.len() {
                    assert(next[k] == out[k]);
                }
            }
        }
        lemma_merge_all(items.drop_first(), next, max);
        let fin = merge_all(items.drop_first(), next, max);
        assert(fin.take(out.len() as int) =~= fin.take(next.len() as int).take(out.len() as int));
        assert(next.take(out.len() as int) =~= out);
    }
}

/// Merging `a + b` is merging `a`, then `b` into the result.
proof fn lemma_merge_all_append(a: Seq<Seq<char>>, b: Seq<Seq<char>>, out: Seq<Seq<char>>, max: nat)
    ensures
        merge_all(a + b, out, max) == merge_all(b, merge_all(a, out, max), max),
    decreases a.len(),
{
    if a.len() == 0 {
        assert(a + b =~= b);
    } else if out.len() >= max {
        assert(merge_all(a + b, out, max) == out);
        assert(merge_all(a, out, max) == out);
        if b.len() > 0 {
            assert(merge_all(b, out, max) == out);
        }
    } else {
        assert((a + b)[0] == a[0]);
        assert((a + b).drop_first() =~= a.drop_first() + b);
        let t = trim_ws(a[0]);
        let next = if t.len() == 0 || lower_seen(out, lowercase_of(t)) { out } else { out.push(t) };
        lemma_merge_all_append(a.drop_first(), b, next, max);
    }
}

/// Hotwords come first: the merge of the hotwords alone is a prefix of the
/// merge of hotwords and context, so no context term displaces a hotword.
pub proof fn law_hotwords_survive(hotwords: Seq<Seq<char>>, context: Seq<Seq<char>>, max: nat)
    ensures
        ({
            let alone = spec_merge_bias_terms(hotwords, Seq::empty(), max);
            let both = spec_merge_bias_terms(hotwords, context, max);
            alone.len() <= both.len() && both.take(alone.len() as int) == alone
        }),
{
    let e = Seq::<Seq<char>>::empty();
    assert(hotwords + e =~= hotwords);
    lemma_merge_all_append(hotwords, context, e, max);
    lemma_merge_all(hotwords, e, max);
    lemma_merge_all(context, merge_all(hotwords, e, max), max);
}

/// Consider one biasing term for the merged list. Returns whether merging
/// stops here.
fn merge_one(w: &String, out: &mut Vec<String>, seen: &mut Vec<String>, max_total: usize) -> (stop: bool)
    requires
        old(seen)@.len() == old(out)@.len(),
        forall|k: int| 0 <= k < old(out)@.len() ==> (#[trigger] old(seen)@[k])@ == lowercase_of(old(out)@[k]@),
        old(out)@.len() < max_total,
    ensures
        final(seen)@.len() == final(out)@.len(),
        forall|k: int| 0 <= k < final(out)@.len() ==> (#[trigger] final(seen)@[k])@ == lowercase_of(final(out)@[k]@),
        strs(final(out)@) == ({
            let t = trim_ws(w@);
            if t.len() == 0 || lower_seen(strs(old(out)@), lowercase_of(t)) {
                strs(old(out)@)
            } else {
                strs(old(out)@).push(t)
            }
        }),
        stop == (final(out)@.len() >= max_total),
{
    let ghost before = strs(out@);
    let trimmed = trim_whitespace(w.as_str());
    if trimmed.is_empty() {
        return false;
    }
    let key = str_to_lowercase(trimmed);
    let dup = contains_str(seen, key.as_str());
    proof {
        if dup {
            let k = choose|k: int| 0 <= k < seen@.len() && (#[trigger] seen@[k])@ == key@;
            assert(before[k] == out@[k]@);
            assert(lower_seen(before, lowercase_of(trimmed@)));
        } else if lower_seen(before, lowercase_of(trimmed@)) {
            let k = choose|k: int| 0 <= k < before.len() && lowercase_of(#[trigger] before[k]) == lowercase_of(trimmed@);
            assert(before[k] == out@[k]@);
            assert(seen@[k]@ == key@);
        }
    }
    if dup {
        return false;
    }
    seen.push(key);
    out.push(trimmed.to_string());
    proof {
        assert(strs(out@) =~= before.push(trimmed@));
    }
    out.len() >= max_total
}

/// Merge hotwords and screen-context terms into one biasing list: each term is
/// trimmed, empty terms are skipped, repeats are dropped case-insensitively
/// keeping the first spelling, hotwords come first, and the list stops growing
/// once it holds `max_total` terms.
pub fn merge_bias_terms(hotwords: &[String], context: &[String], max_total: usize) -> (out: Vec<String>)
    ensures
        strs(out@) == spec_merge_bias_terms(strs(hotwords@), strs(context@), max_total as nat),
        out@.len() <= max_total,
        distinct_lower(strs(out@)),
        all_trimmed(strs(out@)),
{
    let ghost hs = strs(hotwords@);
    let ghost ctx = strs(context@);
    let ghost e = Seq::<Seq<char>>::empty();
    proof {
        lemma_merge_all(hs + ctx, e, max_total as nat);
    }
    if max_total == 0 {
        return Vec::new();
    }
    let mut out: Vec<String> = Vec::new();
    let mut seen: Vec<String> = Vec::new();
    assert(strs(out@) =~= e);
    let mut k: usize = 0;
    assert(hs.skip(0) =~= hs);
    while k < hotwords.len()
        invariant
            k <= hotwords@.len(),
            hs == strs(hotwords@),
            ctx == strs(context@),
            seen@.len() == out@.len(),
            forall|m: int| 0 <= m < out@.len() ==> (#[trigger] seen@[m])@ == lowercase_of(out@[m]@),
            out@.len() < max_total,
            spec_merge_bias_terms(hs, ctx, max_total as nat) == merge_all(hs.skip(k as int) + ctx, strs(out@), max_total as nat),
            spec_merge_bias_terms(hs, ctx, max_total as nat).len() <= max_total,
            distinct_lower(spec_merge_bias_terms(hs, ctx, max_total as nat)),
            all_trimmed(spec_merge_bias_terms(hs, ctx, max_total as nat)),
        decreases hotwords@.len() - k,
    {
        let ghost items = hs.skip(k as int) + ctx;
        proof {
            assert(items[0] == hotwords@[k as int]@);
            assert(items.drop_first() =~= hs.skip(k + 1) + ctx);
        }
        let ghost prev = strs(out@);
        let stop = merge_one(&hotwords[k], &mut out, &mut seen, max_total);
        proof {
            assert(merge_all(items, prev, max_total as nat) == merge_all(items.drop_first(), strs(out@), max_total as nat));
        }
        k = k + 1;
        if stop {
            proof {
                assert(strs(out@).len() == out@.len());
                assert(merge_all(hs.skip(k as int) + ctx, strs(out@), max_total as nat) == strs(out@));
            }
            return out;
        }
    }
    let mut k: usize = 0;
    assert(hs.skip(hotwords@.len() as int) + ctx =~= ctx.skip(0));
    while k < context.len()
        invariant
            k <= context@.len(),
            hs == strs(hotwords@),
            ctx == strs(context@),
            seen@.len() == out@.len(),
            forall|m: int| 0 <= m < out@.len() ==> (#[trigger] seen@[m])@ == lowercase_of(out@[m]@),
            out@.len() < max_total,
            spec_merge_bias_terms(hs, ctx, max_total as nat) == merge_all(ctx.skip(k as int), strs(out@), max_total as nat),
            spec_merge_bias_terms(hs, ctx, max_total as nat).len() <= max_total,
            distinct_lower(spec_merge_bias_terms(hs, ctx, max_total as nat)),
            all_trimmed(spec_merge_bias_terms(hs, ctx, max_total as nat)),
        decreases context@.len() - k,
    {
        let ghost items = ctx.skip(k as int);
        proof {
            assert(items[0] == context@[k as int]@);
            assert(items.drop_first() =~= ctx.skip(k + 1));
        }
        let ghost prev = strs(out@);
        let stop = merge_one(&context[k], &mut out, &mut seen, max_total);
        proof {
            assert(merge_all(items, prev, max_total as nat) == merge_all(items.drop_first(), strs(out@), max_total as nat));
        }
        k = k + 1;
        if stop {
            proof {
                assert(strs(out@).len() == out@.len());
                assert(merge_all(ctx.skip(k as int), strs(out@), max_total as nat) == strs(out@));
            }
            return out;
        }
    }
    proof {
        assert(ctx.skip(context@.len() as int) =~= Seq::<Seq<char>>::empty());
        assert(strs(out@).len() == out@.len());
    }
    out
}

/// The English name of a language code, for the instruction prompt; unknown
/// codes stand for themselves.
pub open spec fn spec_language_name(code: Seq<char>) -> Seq<char> {
    if code == "en"@ { "English"@ }
    else if code == "zh"@ { "Chinese"@ }
    else if code == "yue"@ { "Cantonese"@ }
    else if code == "ja"@ { "Japanese"@ }
    else if code == "ko"@ { "Korean"@ }
    else if code == "de"@ { "German"@ }
    else if code == "fr"@ { "French"@ }
    else if code == "es"@ { "Spanish"@ }
    else if code == "pt"@ { "Portuguese"@ }
    else if code == "it"@ { "Italian"@ }
    else if code == "nl"@ { "Dutch"@ }
    else if code == "ru"@ { "Russian"@ }
    else if code == "ar"@ { "Arabic"@ }
    else if code == "hi"@ { "Hindi"@ }
    else if code == "id"@ { "Indonesian"@ }
    else if code == "vi"@ { "Vietnamese"@ }
    else if code == "th"@ { "Thai"@ }
    else if code == "tr"@ { "Turkish"@ }
    else if code == "pl"@ { "Polish"@ }
    else if code == "uk"@ { "Ukrainian"@ }
    else if code == "cs"@ { "Czech"@ }
    else if code == "el"@ { "Greek"@ }
    else if code == "hu"@ { "Hungarian"@ }
    else if code == "ro"@ { "Romanian"@ }
    else if code == "sv"@ { "Swedish"@ }
    else if code == "da"@ { "Danish"@ }
    else if code == "fi"@ { "Finnish"@ }
    else if code == "he"@ { "Hebrew"@ }
    else if code == "fa"@ { "Persian"@ }
    else if code == "ta"@ { "Tamil"@ }
    else if code == "te"@ { "Telugu"@ }
    else if code == "bn"@ { "Bengali"@ }
    else if code == "ml"@ { "Malayalam"@ }
    else if code == "sw"@ { "Swahili"@ }
    else { code }
}

/// The English name of an STT language code ("zh" gives "Chinese"); unknown
/// codes are returned as they are.
pub fn language_name(code: &str) -> (r: &str)
    ensures
        r@ == spec_language_name(code@),
{
    if str_eq(code, "en") { "English" }
    else if str_eq(code, "zh") { "Chinese" }
    else if str_eq(code, "yue") { "Cantonese" }
    else if str_eq(code, "ja") { "Japanese" }
    else if str_eq(code, "ko") { "Korean" }
    else if str_eq(code, "de") { "German" }
    else if str_eq(code, "fr") { "French" }
    else if str_eq(code, "es") { "Spanish" }
    else if str_eq(code, "pt") { "Portuguese" }
    else if str_eq(code, "it") { "Italian" }
    else if str_eq(code, "nl") { "Dutch" }
    else if str_eq(code, "ru") { "Russian" }
    else if str_eq(code, "ar") { "Arabic" }
    else if str_eq(code, "hi") { "Hindi" }
    else if str_eq(code, "id") { "Indonesian" }
    else if str_eq(code, "vi") { "Vietnamese" }
    else if str_eq(code, "th") { "Thai" }
    else if str_eq(code, "tr") { "Turkish" }
    else if str_eq(code, "pl") { "Polish" }
    else if str_eq(code, "uk") { "Ukrainian" }
    else if str_eq(code, "cs") { "Czech" }
    else if str_eq(code, "el") { "Greek" }
    else if str_eq(code, "hu") { "Hungarian" }
    else if str_eq(code, "ro") { "Romanian" }
    else if str_eq(code, "sv") { "Swedish" }
    else if str_eq(code, "da") { "Danish" }
    else if str_eq(code, "fi") { "Finnish" }
    else if str_eq(code, "he") { "Hebrew" }
    else if str_eq(code, "fa") { "Persian" }
    else if str_eq(code, "ta") { "Tamil" }
    else if str_eq(code, "te") { "Telugu" }
    else if str_eq(code, "bn") { "Bengali" }
    else if str_eq(code, "ml") { "Malayalam" }
    else if str_eq(code, "sw") { "Swahili" }
    else { code }
}

/// The transcription instruction for a selected language: a named-language
/// instruction for a code other than "auto", the auto-detect instruction
/// otherwise.
pub open spec fn spec_instruction_for(language: Option<Seq<char>>) -> Seq<char> {
    match language {
        Some(code) if code != "auto"@ => {
            let name = spec_language_name(code);
            "Transcribe the following speech in "@ + name
                + ". Output only the verbatim "@ + name
                + " transcription — no preamble, no translation, no commentary."@
        },
        _ => "Transcribe the following speech segment in its original language into text in that same language. Do not translate. Output only the verbatim transcription in the exact language and script that is spoken, with no preamble and no newlines."@,
    }
}

/// The character view of an optional string slice.
pub open spec fn opt_view(o: Option<&str>) -> Option<Seq<char>> {
    match o {
        Some(x) => Some(x@),
        None => None,
    }
}

/// Build the transcription instruction for the selected language.
pub fn instruction_for(language: Option<&str>) -> (r: String)
    ensures
        r@ == spec_instruction_for(opt_view(language)),
{
    match language {
        Some(code) if !str_eq(code, "auto") => {
            let name = language_name(code);
            let mut s = "Transcribe the following speech in ".to_string();
            s.append(name);
            s.append(". Output only the verbatim ");
            s.append(name);
            s.append(" transcription — no preamble, no translation, no commentary.");
            s
        },
        _ => "Transcribe the following speech segment in its original language into text in that same language. Do not translate. Output only the verbatim transcription in the exact language and script that is spoken, with no preamble and no newlines.".to_string(),
    }
}

/// The language hint passed on to an engine: none for "auto".
pub open spec fn spec_language_hint(language: Option<Seq<char>>) -> Option<Seq<char>> {
    match language {
        Some(l) if l != "auto"@ => Some(l),
        _ => None,
    }
}

/// The language hint passed on to an engine: the selected language unless it
/// is "auto".
pub fn language_hint<'a>(language: Option<&'a str>) -> (r: Option<&'a str>)
    ensures
        opt_view(r) == spec_language_hint(opt_view(language)),
{
    match language {
        Some(l) => if str_eq(l, "auto") { None } else { Some(l) },
        None => None,
    }
}

/// The model a request uses: the one named when it is not empty, else the
/// engine's default.
pub fn model_or_default(model: Option<&str>, default: &str) -> (r: String)
    ensures
        r@ == (match model {
            Some(m) if m@.len() > 0 => m@,
            _ => default@,
        }),
{
    match model {
        Some(m) => if m.is_empty() { default.to_string() } else { m.to_string() },
        None => default.to_string(),
    }
}

/// Default Deepgram model.
pub const DEEPGRAM_DEFAULT_MODEL: &'static str = "nova-3";

/// Default Groq model.
pub const GROQ_DEFAULT_MODEL: &'static str = "whisper-large-v3-turbo";

/// Default OpenAI model.
pub const OPENAI_DEFAULT_MODEL: &'static str = "gpt-4o-transcribe";

/// Default ElevenLabs model.
pub const ELEVENLABS_DEFAULT_MODEL: &'static str = "scribe_v2";

/// Most biasing terms sent to Deepgram.
pub const DEEPGRAM_BIAS_TERMS: usize = 50;

/// Most biasing terms sent in a Whisper-style prompt.
pub const PROMPT_BIAS_TERMS: usize = 30;

/// Why a cloud transcription fails before or after the request.
#[derive(Debug, Clone, Copy, PartialEq, Eq, Structural)]
pub enum CloudError {
    /// The provider's API key is not set.
    MissingKey(Provider),
    /// The reply carried no transcript.
    NoTranscript,
}

/// A planned cloud transcription request: the model, and the named fields
/// (query parameters or form fields) sent besides the audio.
#[derive(Debug, Clone)]
pub struct CloudRequest {
    pub model: String,
    pub fields: Vec<(String, String)>,
}

/// The view of a request's fields.
pub open spec fn fields_view(f: Seq<(String, String)>) -> Seq<(Seq<char>, Seq<char>)> {
    f.map_values(|p: (String, String)| (p.0@, p.1@))
}

/// The model given, or the default when none is.
pub open spec fn spec_model_or(model: Option<Seq<char>>, default: Seq<char>) -> Seq<char> {
    match model { Some(m) => m, None => default }
}

/// Deepgram's query: model, formatting, the language (or "multi" for an
/// automatic Nova-3), and up to fifty biasing terms, comma-separated, as
/// `keyterm` for Nova-3 or `keywords` otherwise.
pub open spec fn spec_deepgram_fields(model: Seq<char>, language: Option<Seq<char>>, merged: Seq<Seq<char>>) -> Seq<(Seq<char>, Seq<char>)> {
    let nova3 = crate::text::contains_seq(model, "nova-3"@);
    let base = seq![("model"@, model), ("smart_format"@, "true"@), ("punctuate"@, "true"@)];
    let with_lang = match spec_language_hint(language) {
        Some(l) => base.push(("language"@, l)),
        None => if nova3 { base.push(("language"@, "multi"@)) } else { base },
    };
    if merged.len() == 0 {
        with_lang
    } else {
        with_lang.push((if nova3 { "keyterm"@ } else { "keywords"@ }, crate::text::join_sep(merged, ","@)))
    }
}

/// The Deepgram query names the model and asks for smart formatting and
/// punctuation; a chosen language other than "auto" is sent as it is, with
/// any model; with no language (or "auto"), a nova-3 model is asked to
/// detect it ("multi").
pub proof fn law_deepgram_language(model: Seq<char>, language: Option<Seq<char>>, merged: Seq<Seq<char>>)
    ensures
        ({
            let f = spec_deepgram_fields(model, language, merged);
            &&& f.len() >= 3
            &&& f[0] == ("model"@, model)
            &&& f[1] == ("smart_format"@, "true"@)
            &&& f[2] == ("punctuate"@, "true"@)
            &&& (language matches Some(l) && l != "auto"@) ==> f.len() >= 4 && f[3] == ("language"@, language->0)
            &&& ((language is None || language == Some("auto"@)) && crate::text::contains_seq(model, "nova-3"@))
                ==> f.len() >= 4 && f[3] == ("language"@, "multi"@)
        }),
{
}

/// Plan a Deepgram request; the key must be set.
pub fn plan_deepgram(input: &TranscribeInput) -> (r: Result<CloudRequest, CloudError>)
    ensures
        match r {
            Err(e) => input.api_key@.len() == 0 && e == CloudError::MissingKey(Provider::Deepgram),
            Ok(req) => input.api_key@.len() > 0
                && req.model@ == spec_model_or(opt_view(input.model), DEEPGRAM_DEFAULT_MODEL@)
                && fields_view(req.fields@) == spec_deepgram_fields(req.model@, opt_view(input.language),
                    spec_merge_bias_terms(strs(input.hotwords@), strs(input.context_candidates@), DEEPGRAM_BIAS_TERMS as nat)),
        },
{
    if input.api_key.is_empty() {
        return Err(CloudError::MissingKey(Provider::Deepgram));
    }
    let model = match input.model {
        Some(m) => m.to_string(),
        None => DEEPGRAM_DEFAULT_MODEL.to_string(),
    };
    let nova3 = crate::text::str_contains(model.as_str(), "nova-3");
    let mut fields: Vec<(String, String)> = Vec::new();
    fields.push(("model".to_string(), model.clone()));
    fields.push(("smart_format".to_string(), "true".to_string()));
    fields.push(("punctuate".to_string(), "true".to_string()));
    match language_hint(input.language) {
        Some(lang) => fields.push(("language".to_string(), lang.to_string())),
        None => if nova3 {
            fields.push(("language".to_string(), "multi".to_string()));
        },
    }
    let merged = merge_bias_terms(input.hotwords, input.context_candidates, DEEPGRAM_BIAS_TERMS);
    if merged.len() > 0 {
        let key = if nova3 { "keyterm" } else { "keywords" };
        let joined = crate::text::join_strings(merged.as_slice(), ",");
        fields.push((key.to_string(), joined));
    }
    let req = CloudRequest { model, fields };
    proof {
        let merged_v = spec_merge_bias_terms(strs(input.hotwords@), strs(input.context_candidates@), DEEPGRAM_BIAS_TERMS as nat);
        assert(strs(merged@).len() == merged@.len());
        assert(fields_view(req.fields@) =~= spec_deepgram_fields(req.model@, opt_view(input.language), merged_v));
    }
    Ok(req)
}

/// The form fields of a Whisper-style upload (Groq, OpenAI): model, JSON
/// response, the language unless "auto", and a prompt naming up to thirty
/// biasing terms.
pub open spec fn spec_whisper_api_fields(model: Seq<char>, language: Option<Seq<char>>, merged: Seq<Seq<char>>) -> Seq<(Seq<char>, Seq<char>)> {
    let base = seq![("model"@, model), ("response_format"@, "json"@)];
    let with_lang = match spec_language_hint(language) {
        Some(l) => base.push(("language"@, l)),
        None => base,
    };
    if merged.len() == 0 {
        with_lang
    } else {
        with_lang.push(("prompt"@, "Hotwords / proper nouns that may appear: "@ + crate::text::join_sep(merged, ", "@)))
    }
}

/// Plan a Groq or OpenAI upload; the key must be set. `default_model` is the
/// provider's default.
pub fn plan_whisper_api(provider: Provider, default_model: &str, input: &TranscribeInput) -> (r: Result<CloudRequest, CloudError>)
    ensures
        match r {
            Err(e) => input.api_key@.len() == 0 && e == CloudError::MissingKey(provider),
            Ok(req) => input.api_key@.len() > 0
                && req.model@ == spec_model_or(opt_view(input.model), default_model@)
                && fields_view(req.fields@) == spec_whisper_api_fields(req.model@, opt_view(input.language),
                    spec_merge_bias_terms(strs(input.hotwords@), strs(input.context_candidates@), PROMPT_BIAS_TERMS as nat)),
        },
{
    if input.api_key.is_empty() {
        return Err(CloudError::MissingKey(provider));
    }
    let model = match input.model {
        Some(m) => m.to_string(),
        None => default_model.to_string(),
    };
    let mut fields: Vec<(String, String)> = Vec::new();
    fields.push(("model".to_string(), model.clone()));
    fields.push(("response_format".to_string(), "json".to_string()));
    match language_hint(input.language) {
        Some(lang) => fields.push(("language".to_string(), lang.to_string())),
        None => {},
    }
    let merged = merge_bias_terms(input.hotwords, input.context_candidates, PROMPT_BIAS_TERMS);
    if merged.len() > 0 {
        let mut prompt = "Hotwords / proper nouns that may appear: ".to_string();
        let joined = crate::text::join_strings(merged.as_slice(), ", ");
        prompt.append(joined.as_str());
        fields.push(("prompt".to_string(), prompt));
    }
    let req = CloudRequest { model, fields };
    proof {
        let merged_v = spec_merge_bias_terms(strs(input.hotwords@), strs(input.context_candidates@), PROMPT_BIAS_TERMS as nat);
        assert(strs(merged@).len() == merged@.len());
        assert(fields_view(req.fields@) =~= spec_whisper_api_fields(req.model@, opt_view(input.language), merged_v));
    }
    Ok(req)
}

/// Plan an ElevenLabs upload: model id and the language code unless "auto";
/// the key must be set.
pub fn plan_elevenlabs(input: &TranscribeInput) -> (r: Result<CloudRequest, CloudError>)
    ensures
        match r {
            Err(e) => input.api_key@.len() == 0 && e == CloudError::MissingKey(Provider::Elevenlabs),
            Ok(req) => input.api_key@.len() > 0
                && req.model@ == spec_model_or(opt_view(input.model), ELEVENLABS_DEFAULT_MODEL@)
                && fields_view(req.fields@) == (match spec_language_hint(opt_view(input.language)) {
                    Some(l) => seq![("model_id"@, req.model@), ("language_code"@, l)],
                    None => seq![("model_id"@, req.model@)],
                }),
        },
{
    if input.api_key.is_empty() {
        return Err(CloudError::MissingKey(Provider::Elevenlabs));
    }
    let model = match input.model {
        Some(m) => m.to_string(),
        None => ELEVENLABS_DEFAULT_MODEL.to_string(),
    };
    let mut fields: Vec<(String, String)> = Vec::new();
    fields.push(("model_id".to_string(), model.clone()));
    match language_hint(input.language) {
        Some(lang) => fields.push(("language_code".to_string(), lang.to_string())),
        None => {},
    }
    let req = CloudRequest { model, fields };
    assert(fields_view(req.fields@) =~= (match spec_language_hint(opt_view(input.language)) {
        Some(l) => seq![("model_id"@, req.model@), ("language_code"@, l)],
        None => seq![("model_id"@, req.model@)],
    }));
    Ok(req)
}

/// The payload of one streamed server-sent-event line: the text after
/// `data:`, trimmed, unless it is empty or the `[DONE]` terminator.
pub open spec fn spec_sse_payload(line: Seq<char>) -> Option<Seq<char>> {
    let t = trim_ws(line);
    if crate::text::seq_starts_with(t, "data:"@) {
        let d = trim_ws(t.skip("data:"@.len() as int));
        if d.len() == 0 || d == "[DONE]"@ { None } else { Some(d) }
    } else {
        None
    }
}

/// The JSON payload of a streamed line, if it carries one.
pub fn sse_payload(line: &str) -> (r: Option<&str>)
    ensures
        opt_view(r) == spec_sse_payload(line@),
{
    let t = trim_whitespace(line);
    let tc = crate::text::chars_of(t);
    let pc = crate::text::chars_of("data:");
    if !crate::text::chars_start_with(&tc, &pc) {
        return None;
    }
    let rest = t.substring_char(pc.len(), tc.len());
    let d = trim_whitespace(rest);
    if d.is_empty() || str_eq(d, "[DONE]") {
        return None;
    }
    Some(d)
}

/// The transcript in a Deepgram reply, given each channel's alternative
/// transcripts: the first alternative of the first channel; an error when
/// either is missing.
pub fn deepgram_transcript(channels: Vec<Vec<String>>) -> (r: Result<String, CloudError>)
    ensures
        (if channels@.len() == 0 || channels@[0]@.len() == 0 {
            r == Err::<String, CloudError>(CloudError::NoTranscript)
        } else {
            r matches Ok(t) && t@ == channels@[0]@[0]@
        }),
{
    if channels.len() == 0 || channels[0].len() == 0 {
        return Err(CloudError::NoTranscript);
    }
    Ok(channels[0][0].clone())
}

/// Position of the first `b` in `s` at or after `i`.
pub open spec fn first_byte_from(s: Seq<u8>, b: u8, i: int) -> Option<int>
    decreases s.len() - i,
{
    if i < 0 || i >= s.len() {
        None
    } else if s[i] == b {
        Some(i)
    } else {
        first_byte_from(s, b, i + 1)
    }
}

/// Take the first complete line off a streamed byte buffer: the bytes
/// before the first newline, removed from the buffer together with the
/// newline. Nothing is taken while no newline has arrived, so a character
/// split across network chunks is never cut.
pub fn take_line(buf: &mut Vec<u8>) -> (line: Option<Vec<u8>>)
    ensures
        match first_byte_from(old(buf)@, 10u8, 0) {
            None => line is None && final(buf)@ == old(buf)@,
            Some(p) => line matches Some(l) && l@ == old(buf)@.take(p) && final(buf)@ == old(buf)@.skip(p + 1),
        },
{
    let ghost start = buf@;
    let mut i: usize = 0;
    while i < buf.len()
        invariant
            buf@ == start,
            start == old(buf)@,
            i <= start.len(),
            first_byte_from(start, 10u8, 0) == first_byte_from(start, 10u8, i as int),
        decreases start.len() - i,
    {
        if buf[i] == 10u8 {
            assert(start[i as int] == 10u8);
            assert(first_byte_from(start, 10u8, i as int) == Some(i as int));
            let mut rest = buf.split_off(i + 1);
            buf.truncate(i);
            std::mem::swap(buf, &mut rest);
            assert(rest@ =~= start.take(i as int));
            assert(buf@ =~= start.skip(i + 1));
            return Some(rest);
        }
        i = i + 1;
    }
    None
}

} // verus!
