//! The dictation pipeline's decisions after a recording stops and while the
//! live preview runs: whether a take is transcribed, where the final
//! transcript comes from, when the local Whisper model takes over, whether a
//! transcript is pasted, how the windowed preview commits its windows, how a
//! streamed final is handed from the preview to the stop handler, when the
//! microphone is reported dead, and whether the refinement pass runs. The
//! audio, the engines and the events live with the application.

use vstd::prelude::*;
use vstd::string::StrSliceExecFns;
use crate::hotkey::elapsed_ms;
use crate::polish::PolishProvider;
use crate::state::{lookup_mode, spec_active_mode, Settings};
use crate::stt::Provider;
use crate::text::{lowercase_of, str_eq, trim_whitespace, trim_ws};
use crate::transcript::{
    has_drift_marker, hallucination_norm, is_canned_reply, is_chat_refusal, is_preview_hallucination,
    join_transcript, spec_join_transcript,
};

verus! {

/// Shortest take (milliseconds) worth transcribing.
pub const MIN_DURATION_MS: u64 = 250;

/// Gemma clips at least this long (milliseconds) use the windowed preview's
/// transcript when streaming is off.
pub const GEMMA_WINDOWED_FINAL_MS: u64 = 25_000;

/// An empty transcript of a clip at least this long (milliseconds) means the
/// engine choked on length.
pub const LONG_AUDIO_FALLBACK_MS: u64 = 40_000;

/// What happens to a stopped take.
#[derive(Debug, Clone, Copy, PartialEq, Eq, Structural)]
pub enum TakeDecision {
    /// Transcribe; `use_raw_audio` when the untrimmed audio replaces the
    /// trimmed clip; `low_confidence` when the clip looked silent but carried
    /// voice, so a canned reply counts as nothing.
    Transcribe { use_raw_audio: bool, low_confidence: bool },
    /// Drop the take without transcribing.
    Discard,
}

/// The decision for a take. A take the live engine streamed (at least the
/// minimum raw length) is always transcribed. Otherwise a clip that is too
/// short or too quiet (`peak_ok` false) is salvaged when it carried voice or
/// a peak: from the raw audio when that was kept, as-is when it is long
/// enough, else dropped; a clip with neither voice nor peak is dropped.
pub open spec fn spec_decide_take(
    duration_ms: u64,
    raw_duration_ms: u64,
    peak_ok: bool,
    raw_has_voice: bool,
    has_raw_audio: bool,
    live_engine_streamed: bool,
) -> TakeDecision {
    let streamed = raw_duration_ms >= MIN_DURATION_MS && live_engine_streamed;
    if !streamed && (duration_ms < MIN_DURATION_MS || !peak_ok) {
        if raw_has_voice || peak_ok {
            if has_raw_audio {
                TakeDecision::Transcribe { use_raw_audio: true, low_confidence: true }
            } else if duration_ms < MIN_DURATION_MS {
                TakeDecision::Discard
            } else {
                TakeDecision::Transcribe { use_raw_audio: false, low_confidence: true }
            }
        } else {
            TakeDecision::Discard
        }
    } else {
        TakeDecision::Transcribe { use_raw_audio: false, low_confidence: false }
    }
}

/// Whether the live engine streamed this recording: Qwen3 or Parakeet with
/// its engine ready.
pub fn live_engine_streamed(provider: Provider, qwen3_ready: bool, parakeet_ready: bool) -> (r: bool)
    ensures
        r == ((provider == Provider::Qwen3 && qwen3_ready) || (provider == Provider::FluidAudio && parakeet_ready)),
{
    (provider == Provider::Qwen3 && qwen3_ready) || (provider == Provider::FluidAudio && parakeet_ready)
}

/// Decide what happens to a stopped take.
pub fn decide_take(
    duration_ms: u64,
    raw_duration_ms: u64,
    peak_ok: bool,
    raw_has_voice: bool,
    has_raw_audio: bool,
    live_engine_streamed: bool,
) -> (d: TakeDecision)
    ensures
        d == spec_decide_take(duration_ms, raw_duration_ms, peak_ok, raw_has_voice, has_raw_audio, live_engine_streamed),
{
    let streamed = raw_duration_ms >= MIN_DURATION_MS && live_engine_streamed;
    if !streamed && (duration_ms < MIN_DURATION_MS || !peak_ok) {
        if raw_has_voice || peak_ok {
            if has_raw_audio {
                TakeDecision::Transcribe { use_raw_audio: true, low_confidence: true }
            } else if duration_ms < MIN_DURATION_MS {
                TakeDecision::Discard
            } else {
                TakeDecision::Transcribe { use_raw_audio: false, low_confidence: true }
            }
        } else {
            TakeDecision::Discard
        }
    } else {
        TakeDecision::Transcribe { use_raw_audio: false, low_confidence: false }
    }
}

/// A take with neither voice nor a peak is never transcribed unless the live
/// engine streamed it.
pub proof fn law_silent_take_dropped(duration_ms: u64, raw_duration_ms: u64, has_raw_audio: bool)
    ensures
        spec_decide_take(duration_ms, raw_duration_ms, false, false, has_raw_audio, false) == TakeDecision::Discard,
{
}

/// Where the final transcript comes from.
#[derive(Debug, Clone, Copy, PartialEq, Eq, Structural)]
pub enum FinalSource {
    /// The Qwen3 streaming session's accumulated transcript.
    Qwen3Stream,
    /// The Gemma streaming or windowed preview's transcript.
    GemmaStream,
    /// A batch transcription of the clip.
    Batch,
}

/// Qwen3 with its engine ready uses its stream; Gemma with its engine ready
/// uses its stream when streaming is on or the clip is long; everything else
/// is transcribed in one batch.
pub fn final_source(provider: Provider, qwen3_ready: bool, gemma_ready: bool, gemma_streaming: bool, duration_ms: u64) -> (s: FinalSource)
    ensures
        s == (if provider == Provider::Qwen3 && qwen3_ready {
            FinalSource::Qwen3Stream
        } else if provider == Provider::Gemma && gemma_ready && (gemma_streaming || duration_ms >= GEMMA_WINDOWED_FINAL_MS) {
            FinalSource::GemmaStream
        } else {
            FinalSource::Batch
        }),
{
    if provider == Provider::Qwen3 && qwen3_ready {
        FinalSource::Qwen3Stream
    } else if provider == Provider::Gemma && gemma_ready && (gemma_streaming || duration_ms >= GEMMA_WINDOWED_FINAL_MS) {
        FinalSource::GemmaStream
    } else {
        FinalSource::Batch
    }
}

/// Whether local Whisper re-transcribes the clip: the engine is one with a
/// short audio window (Qwen3, Gemma), Whisper's model is on disk, and the
/// engine failed, returned nothing on a long clip, or replied instead of
/// transcribing. `result` is the engine's text, or `None` when it failed.
pub fn needs_whisper_fallback(provider: Provider, result: Option<&str>, duration_ms: u64, whisper_on_disk: bool) -> (r: bool)
    ensures
        r == ((provider == Provider::Qwen3 || provider == Provider::Gemma) && whisper_on_disk && match result {
            None => true,
            Some(t) => (trim_ws(t@).len() == 0 && duration_ms >= LONG_AUDIO_FALLBACK_MS)
                || has_drift_marker(lowercase_of(trim_ws(t@))),
        }),
{
    let short_window = provider == Provider::Qwen3 || provider == Provider::Gemma;
    if !short_window || !whisper_on_disk {
        return false;
    }
    match result {
        None => true,
        Some(text) => {
            let t = trim_whitespace(text);
            (t.is_empty() && duration_ms >= LONG_AUDIO_FALLBACK_MS) || is_chat_refusal(t)
        },
    }
}

/// Whether a transcript is pasted: it is not blank, and a low-confidence
/// take's canned reply or chat refusal counts as nothing.
pub fn transcript_usable(text: &str, low_confidence: bool) -> (r: bool)
    ensures
        r == !(trim_ws(text@).len() == 0 || (low_confidence
            && (is_canned_reply(hallucination_norm(text@)) || has_drift_marker(lowercase_of(text@))))),
{
    if trim_whitespace(text).is_empty() {
        return false;
    }
    if low_confidence && (is_preview_hallucination(text) || is_chat_refusal(text)) {
        return false;
    }
    true
}

/// Minimum new audio (milliseconds) before a preview pass runs.
pub const MIN_PASS_MS: u64 = 400;

/// A preview window at least this long (milliseconds) commits at a pause.
pub const COMMIT_PAUSE_MS: u64 = 1_200;

/// A preview window this long (milliseconds) commits regardless.
pub const HARD_MAX_MS: u64 = 8_000;

/// Quiet tail (milliseconds) that counts as a pause.
pub const TAIL_SILENCE_MS: u64 = 350;

/// Milliseconds in a window of `len` interleaved samples.
pub fn window_ms(len: usize, rate: u32, channels: u16) -> (ms: u64)
    requires
        rate > 0,
        len * 1000 <= u64::MAX,
    ensures
        ms == (len * 1000) / (rate * (if channels == 0 { 1 } else { channels as int })),
{
    let frame: u64 = if channels == 0 { 1 } else { channels as u64 };
    assert((rate as int) * (frame as int) <= 0xFFFF_FFFF * 0xFFFF && (rate as int) * (frame as int) > 0) by (nonlinear_arith)
        requires
            0 < rate <= 0xFFFF_FFFF,
            0 < frame <= 0xFFFF,
    ;
    (len as u64 * 1000) / ((rate as u64) * frame)
}

/// A window's text counts when it is not blank, not a canned reply and not a
/// chat refusal.
pub open spec fn window_text_usable(t: Seq<char>) -> bool {
    t.len() > 0 && !is_canned_reply(hallucination_norm(t)) && !has_drift_marker(lowercase_of(t))
}

/// The windowed live preview: the committed prefix and where the next
/// window starts in the capture.
pub struct WindowedPreview {
    pub committed: String,
    pub commit_cursor: usize,
}

impl WindowedPreview {
    /// Nothing committed yet.
    pub fn new() -> (p: Self)
        ensures
            p.committed@.len() == 0,
            p.commit_cursor == 0,
    {
        WindowedPreview { committed: String::new(), commit_cursor: 0 }
    }

    /// Fold in a decoded window (`win_text`, already trimmed) that spans
    /// `win_ms` and ends at sample `win_end`; `paused` when its tail was
    /// quiet. A usable window is shown after the prefix and committed at a
    /// pause or the hard cap; an unusable window that hit the hard cap is
    /// dropped. Returns the text to show, if any.
    pub fn fold_window(&mut self, win_text: &str, win_ms: u64, paused: bool, win_end: usize) -> (shown: Option<String>)
        ensures
            ({
                let usable = window_text_usable(win_text@);
                let commit = usable && (win_ms >= HARD_MAX_MS || (paused && win_ms >= COMMIT_PAUSE_MS));
                &&& (match shown {
                    Some(s) => usable && s@ == spec_join_transcript(old(self).committed@, win_text@),
                    None => !usable,
                })
                &&& final(self).committed@ == (if commit {
                    spec_join_transcript(old(self).committed@, win_text@)
                } else {
                    old(self).committed@
                })
                &&& final(self).commit_cursor == (if commit || win_ms >= HARD_MAX_MS { win_end } else { old(self).commit_cursor })
            }),
    {
        let usable = !win_text.is_empty() && !is_preview_hallucination(win_text) && !is_chat_refusal(win_text);
        let shown = if usable {
            Some(join_transcript(self.committed.as_str(), win_text))
        } else {
            None
        };
        if usable && (win_ms >= HARD_MAX_MS || (paused && win_ms >= COMMIT_PAUSE_MS)) {
            self.committed = join_transcript(self.committed.as_str(), win_text);
            self.commit_cursor = win_end;
        } else if win_ms >= HARD_MAX_MS {
            self.commit_cursor = win_end;
        }
        shown
    }

    /// Fold in the final tail's transcript, when it is usable.
    pub fn fold_tail(&mut self, tail_text: &str)
        ensures
            final(self).committed@ == (if window_text_usable(trim_ws(tail_text@)) {
                spec_join_transcript(old(self).committed@, trim_ws(tail_text@))
            } else {
                old(self).committed@
            }),
            final(self).commit_cursor == old(self).commit_cursor,
    {
        let t = trim_whitespace(tail_text);
        if !t.is_empty() && !is_chat_refusal(t) && !is_preview_hallucination(t) {
            self.committed = join_transcript(self.committed.as_str(), t);
        }
    }

    /// The preview's transcript for the stop handler: the committed prefix
    /// trimmed, or none when it is blank.
    pub fn final_text(&self) -> (r: Option<String>)
        ensures
            match r {
                Some(t) => t@ == trim_ws(self.committed@) && t@.len() > 0,
                None => trim_ws(self.committed@).len() == 0,
            },
    {
        let c = trim_whitespace(self.committed.as_str());
        if c.is_empty() {
            None
        } else {
            Some(c.to_string())
        }
    }
}

/// Milliseconds between two streamed partials painted in the preview.
pub const EMIT_THROTTLE_MS: u64 = 60;

/// Most tokens a preview window's decode may generate.
pub const PREVIEW_MAX_TOKENS: u32 = 256;

/// Whether a streamed cumulative partial is painted: the throttle has passed
/// since the last paint (`elapsed_ms` and `last_emit_ms` on one clock), the
/// text is not empty, not a canned reply and not a refusal, and its
/// recording is still the current one.
pub fn partial_shown(cumulative: &str, elapsed_ms: u64, last_emit_ms: u64, current: bool) -> (r: bool)
    ensures
        r == (elapsed_ms >= last_emit_ms + EMIT_THROTTLE_MS && cumulative@.len() > 0
            && !is_canned_reply(hallucination_norm(cumulative@)) && !has_drift_marker(lowercase_of(cumulative@))
            && current),
{
    if elapsed_ms < last_emit_ms || elapsed_ms - last_emit_ms < EMIT_THROTTLE_MS {
        return false;
    }
    !cumulative.is_empty() && !is_preview_hallucination(cumulative) && !is_chat_refusal(cumulative) && current
}

/// Whether pressing record preloads the Gemma streaming sidecar: streaming
/// is on, Gemma is the engine, its environment is installed, and the sidecar
/// is not running (it was unloaded while idle).
pub fn should_prewarm_gemma(provider: Provider, gemma_streaming: bool, engine_ready: bool, running: bool) -> (r: bool)
    ensures
        r == (gemma_streaming && provider == Provider::Gemma && engine_ready && !running),
{
    gemma_streaming && provider == Provider::Gemma && engine_ready && !running
}

/// Consecutive failed feeds after which the streaming preview gives up.
pub const MAX_FEED_ERRORS: u32 = 3;

/// The consecutive-failure count after a feed, and whether the preview gives
/// up: a success resets the count, a failure raises it, and the preview stops
/// once it reaches the limit.
pub fn feed_error_step(errors: u32, failed: bool) -> (r: (u32, bool))
    ensures
        r.0 == (if !failed { 0 } else if errors < u32::MAX { errors + 1 } else { errors as int }),
        r.1 == (failed && r.0 >= MAX_FEED_ERRORS),
{
    if !failed {
        return (0, false);
    }
    let n = errors.saturating_add(1);
    (n, n >= MAX_FEED_ERRORS)
}

/// Samples of new audio a streaming feed waits for: a quarter second of
/// frames, and at least one sample.
pub fn min_feed_samples(rate: u32, channels: u16) -> (n: u64)
    ensures
        n == (if (rate / 4) * (if channels == 0 { 1 } else { channels as int }) == 0 {
            1
        } else {
            (rate / 4) * (if channels == 0 { 1 } else { channels as int })
        }),
{
    let frame: u64 = if channels == 0 { 1 } else { channels as u64 };
    let quarter: u64 = (rate / 4) as u64;
    assert(quarter * frame <= 0x4000_0000 * 0xFFFF) by (nonlinear_arith)
        requires
            quarter <= 0x4000_0000,
            frame <= 0xFFFF,
    ;
    let n = quarter * frame;
    if n == 0 { 1 } else { n }
}

/// Samples a whole-buffer preview pass waits for: three tenths of a second
/// of frames.
pub fn preview_min_samples(rate: u32, channels: u16) -> (n: u64)
    ensures
        n == (rate * (if channels == 0 { 1 } else { channels as int }) * 3) / 10,
{
    let frame: u64 = if channels == 0 { 1 } else { channels as u64 };
    assert((rate as u64) * frame * 3 <= 0xFFFF_FFFF * 0xFFFF * 3) by (nonlinear_arith)
        requires
            rate <= 0xFFFF_FFFF,
            frame <= 0xFFFF,
    ;
    (rate as u64) * frame * 3 / 10
}

/// The final a streaming session hands over: its text when the session
/// finished with nonblank text, none when it failed (`None`) or finished
/// blank.
pub fn stream_final_text(finished: Option<String>) -> (r: Option<String>)
    ensures
        match finished {
            Some(t) => if trim_ws(t@).len() > 0 { r == Some(t) } else { r is None },
            None => r is None,
        },
{
    match finished {
        Some(t) => {
            if trim_whitespace(t.as_str()).is_empty() {
                None
            } else {
                Some(t)
            }
        },
        None => None,
    }
}

/// What the stop handler learns when it looks for a streamed final.
#[derive(Debug, Clone)]
pub enum SlotPoll {
    /// This session's final was waiting and is now taken (`None` when the
    /// stream finished empty).
    Ready(Option<String>),
    /// A newer recording has written the slot; this session's final will
    /// never come.
    Superseded,
    /// Nothing for this session yet.
    Pending,
}

/// The slot after a claim, and what the claim yields: the session's own
/// entry is taken out; a newer session's entry, an older one, or an empty
/// slot are left as they are.
pub open spec fn spec_claim_stream_final(
    slot: Option<(u64, Option<String>)>,
    session: u64,
) -> (SlotPoll, Option<(u64, Option<String>)>) {
    match slot {
        Some((s, v)) => if s == session {
            (SlotPoll::Ready(v), None)
        } else if s > session {
            (SlotPoll::Superseded, slot)
        } else {
            (SlotPoll::Pending, slot)
        },
        None => (SlotPoll::Pending, slot),
    }
}

/// Look once for `session`'s streamed final in the hand-off slot (the session
/// id and the final it produced), taking it when it is there.
pub fn claim_stream_final(slot: &mut Option<(u64, Option<String>)>, session: u64) -> (r: SlotPoll)
    ensures
        r == spec_claim_stream_final(*old(slot), session).0,
        *final(slot) == spec_claim_stream_final(*old(slot), session).1,
{
    let owner: Option<u64> = match &*slot {
        Some(entry) => Some(entry.0),
        None => None,
    };
    match owner {
        Some(s) => {
            if s == session {
                match slot.take() {
                    Some(entry) => SlotPoll::Ready(entry.1),
                    None => SlotPoll::Pending,
                }
            } else if s > session {
                SlotPoll::Superseded
            } else {
                SlotPoll::Pending
            }
        },
        None => SlotPoll::Pending,
    }
}

/// A session's streamed final is handed over once: after it is taken, a
/// second look for any session finds nothing ready.
pub proof fn law_stream_final_taken_once(slot: Option<(u64, Option<String>)>, session: u64, again: u64)
    requires
        spec_claim_stream_final(slot, session).0 is Ready,
    ensures
        spec_claim_stream_final(spec_claim_stream_final(slot, session).1, again).0 is Pending,
        spec_claim_stream_final(slot, session).1 is None,
{
}

/// An older session never takes a newer recording's final: it learns it was
/// superseded and the slot stays as it was.
pub proof fn law_newer_final_untouched(newer: u64, text: Option<String>, session: u64)
    requires
        newer > session,
    ensures
        spec_claim_stream_final(Some((newer, text)), session).0 is Superseded,
        spec_claim_stream_final(Some((newer, text)), session).1 == Some((newer, text)),
{
}

/// Polling period (milliseconds) of the microphone liveness watcher.
pub const HEALTH_POLL_MS: u64 = 400;

/// Milliseconds without an audio heartbeat before the user is warned.
pub const SILENCE_WARN_MS: u64 = 3_000;

/// What the liveness watcher reports.
#[derive(Debug, Clone, Copy, PartialEq, Eq, Structural)]
pub enum HealthEvent {
    /// Audio flows again after a warning.
    Live,
    /// No audio heartbeat for too long.
    Dead,
}

/// The liveness watcher of a recording: the last heartbeat counter seen,
/// when it last moved, and whether the user has been warned.
#[derive(Debug, Clone, Copy, PartialEq, Eq, Structural)]
pub struct MicHealth {
    pub last_seq: u64,
    pub last_live_at_ms: u64,
    pub warned: bool,
}

/// One poll of the watcher: a moved heartbeat records the time, clears a
/// warning and reports the recovery; a heartbeat that has not moved for
/// longer than the limit warns, once.
pub open spec fn spec_observe(h: MicHealth, seq: u64, now_ms: u64) -> (MicHealth, Option<HealthEvent>) {
    if seq != h.last_seq {
        (
            MicHealth { last_seq: seq, last_live_at_ms: now_ms, warned: false },
            if h.warned { Some(HealthEvent::Live) } else { None },
        )
    } else if !h.warned && elapsed_ms(h.last_live_at_ms, now_ms) > SILENCE_WARN_MS {
        (MicHealth { warned: true, ..h }, Some(HealthEvent::Dead))
    } else {
        (h, None)
    }
}

impl MicHealth {
    /// Start watching from heartbeat `seq` at `now_ms`.
    pub fn new(seq: u64, now_ms: u64) -> (h: Self)
        ensures
            h == (MicHealth { last_seq: seq, last_live_at_ms: now_ms, warned: false }),
    {
        MicHealth { last_seq: seq, last_live_at_ms: now_ms, warned: false }
    }

    /// Poll with the current heartbeat `seq` at `now_ms`.
    pub fn observe(&mut self, seq: u64, now_ms: u64) -> (ev: Option<HealthEvent>)
        ensures
            (*final(self), ev) == spec_observe(*old(self), seq, now_ms),
    {
        if seq != self.last_seq {
            let was_warned = self.warned;
            self.last_seq = seq;
            self.last_live_at_ms = now_ms;
            self.warned = false;
            if was_warned { Some(HealthEvent::Live) } else { None }
        } else {
            let elapsed: u64 = if now_ms >= self.last_live_at_ms { now_ms - self.last_live_at_ms } else { 0 };
            if !self.warned && elapsed > SILENCE_WARN_MS {
                self.warned = true;
                Some(HealthEvent::Dead)
            } else {
                None
            }
        }
    }
}

/// A dead microphone is reported once per silent spell: after a warning,
/// further polls without a heartbeat report nothing.
pub proof fn law_one_warning_per_silence(h: MicHealth, seq: u64, now_ms: u64, later_ms: u64)
    requires
        spec_observe(h, seq, now_ms).1 == Some(HealthEvent::Dead),
    ensures
        spec_observe(spec_observe(h, seq, now_ms).0, seq, later_ms).1 is None,
{
}

/// A moving heartbeat after a warning always reports the recovery and
/// re-arms the warning.
pub proof fn law_heartbeat_clears_warning(h: MicHealth, seq: u64, now_ms: u64)
    requires
        h.warned,
        seq != h.last_seq,
    ensures
        spec_observe(h, seq, now_ms).1 == Some(HealthEvent::Live),
        !spec_observe(h, seq, now_ms).0.warned,
{
}

/// The user never hears of a dead microphone while the heartbeat moves.
pub proof fn law_no_warning_while_audio_flows(h: MicHealth, seq: u64, now_ms: u64)
    requires
        seq != h.last_seq,
    ensures
        spec_observe(h, seq, now_ms).1 != Some(HealthEvent::Dead),
{
}

/// Whether the refinement pass can reach its language model: Anthropic
/// needs a key, any other provider a base URL and a model.
pub open spec fn refinement_configured(s: Settings) -> bool {
    if s.polish_provider == PolishProvider::Anthropic {
        s.anthropic_key@.len() > 0
    } else {
        s.polish_base_url@.len() > 0 && s.polish_model@.len() > 0
    }
}

/// The refinement to run: none when no mode is active, the active id names
/// no mode, or the provider is not configured; otherwise whether it is the
/// translation and the mode's prompt.
pub open spec fn spec_plan_refinement(s: Settings) -> Option<(bool, Seq<char>)> {
    match (s.active_refinement_mode_id, spec_active_mode(s)) {
        (Some(id), Some(m)) => if refinement_configured(s) {
            Some((id@ == "translate"@, m.prompt@))
        } else {
            None
        },
        _ => None,
    }
}

/// The refinement pass a transcript gets.
#[derive(Debug, Clone)]
pub enum RefinementPlan {
    /// Paste the transcript as it is.
    Off,
    /// Run the mode's prompt; `translate` for the translation mode.
    Run { translate: bool, prompt: String },
}

/// Decide the refinement pass from the settings.
pub fn plan_refinement(settings: &Settings) -> (p: RefinementPlan)
    ensures
        match spec_plan_refinement(*settings) {
            None => p is Off,
            Some((t, prompt)) => p matches RefinementPlan::Run { translate, prompt: pr }
                && translate == t && pr@ == prompt,
        },
{
    let id = match &settings.active_refinement_mode_id {
        None => return RefinementPlan::Off,
        Some(id) => id,
    };
    let mode = match lookup_mode(settings, id.as_str()) {
        None => return RefinementPlan::Off,
        Some(m) => m,
    };
    let configured = match settings.polish_provider {
        PolishProvider::Anthropic => !settings.anthropic_key.as_str().is_empty(),
        _ => !settings.polish_base_url.as_str().is_empty() && !settings.polish_model.as_str().is_empty(),
    };
    if !configured {
        return RefinementPlan::Off;
    }
    let translate = str_eq(id.as_str(), "translate");
    RefinementPlan::Run { translate, prompt: mode.prompt.clone() }
}

/// The text pasted after a refinement pass and the badges it earns
/// (polished, translated): the model's reply when it is not blank, else the
/// raw transcript with neither badge. `reply` is `None` when the pass
/// failed.
pub open spec fn spec_refinement_outcome(raw: Seq<char>, translate: bool, reply: Option<Seq<char>>) -> (Seq<char>, bool, bool) {
    match reply {
        Some(t) => if trim_ws(t).len() > 0 {
            (t, !translate, translate)
        } else {
            (raw, false, false)
        },
        None => (raw, false, false),
    }
}

/// Settle a refinement pass.
pub fn refinement_outcome(raw: &str, translate: bool, reply: Option<String>) -> (r: (String, bool, bool))
    ensures
        (r.0@, r.1, r.2) == spec_refinement_outcome(raw@, translate, match reply {
            Some(t) => Some(t@),
            None => None,
        }),
{
    match reply {
        Some(t) => {
            if !trim_whitespace(t.as_str()).is_empty() {
                (t, !translate, translate)
            } else {
                (raw.to_string(), false, false)
            }
        },
        None => (raw.to_string(), false, false),
    }
}

/// Refinement never turns a transcript into nothing: whatever the model
/// replies, or if it fails, a nonblank transcript stays nonblank.
pub proof fn law_refinement_never_blanks(raw: Seq<char>, translate: bool, reply: Option<Seq<char>>)
    requires
        trim_ws(raw).len() > 0,
    ensures
        trim_ws(spec_refinement_outcome(raw, translate, reply).0).len() > 0,
{
}

/// At most one badge: a pass is either a polish or a translation.
pub proof fn law_one_badge(raw: Seq<char>, translate: bool, reply: Option<Seq<char>>)
    ensures
        !(spec_refinement_outcome(raw, translate, reply).1 && spec_refinement_outcome(raw, translate, reply).2),
{
}

} // verus!
