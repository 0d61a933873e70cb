//! Settings and their defaults, the learned-correction dictionary entries,
//! refinement-mode selection and cycling, and the recording state machine
//! shared by the hotkey and the click-to-record control.

use vstd::prelude::*;
use std::collections::HashMap;
use crate::polish::{default_refinement_modes, PolishProvider};
use crate::stt::Provider;
use crate::text::str_eq;

verus! {

/// How the focused window's text is gathered for biasing: accessibility
/// tree or on-screen text recognition.
#[derive(Debug, Clone, Copy, PartialEq, Eq, Structural)]
pub enum ScreenContextMode {
    Off,
    Ax,
    Ocr,
}

impl Default for ScreenContextMode {
    fn default() -> (m: Self)
        ensures
            m == ScreenContextMode::Ax,
    {
        ScreenContextMode::Ax
    }
}

/// What happens to a detected correction: ask first, store silently, or
/// don't detect.
#[derive(Debug, Clone, Copy, PartialEq, Eq, Structural)]
pub enum CorrectionLearningMode {
    Off,
    Ask,
    Auto,
}

impl Default for CorrectionLearningMode {
    fn default() -> (m: Self)
        ensures
            m == CorrectionLearningMode::Ask,
    {
        CorrectionLearningMode::Ask
    }
}

/// Remembered base URL and model for one refinement provider.
#[derive(Debug, Clone)]
pub struct PolishProviderConfig {
    pub base_url: String,
    pub model: String,
}

/// A single learned (from → to) mapping in the user's dictionary.
#[derive(Debug, Clone)]
pub struct CorrectionEntry {
    pub from: String,
    pub to: String,
    /// Unix epoch milliseconds when this entry was learned.
    pub learned_at_ms: u64,
}

impl CorrectionEntry {
    /// The `(from, to)` pair as character sequences.
    pub open spec fn pair(self) -> (Seq<char>, Seq<char>) {
        (self.from@, self.to@)
    }
}

/// A named refinement preset: a badge (name and emoji) and the system prompt
/// run against the raw transcript. The id `translate` receives the
/// translation target.
#[derive(Debug, Clone)]
pub struct RefinementMode {
    pub id: String,
    pub name: String,
    pub emoji: String,
    pub prompt: String,
    pub builtin: bool,
}

/// The user's settings.
#[derive(Debug, Clone)]
pub struct Settings {
    pub provider: Provider,
    pub deepgram_key: String,
    pub groq_key: String,
    pub openai_key: String,
    pub elevenlabs_key: String,
    pub anthropic_key: String,
    pub language: String,
    pub stt_language: String,
    pub model: Option<String>,
    pub polish_provider: PolishProvider,
    pub polish_base_url: String,
    pub polish_model: String,
    pub polish_api_key: String,
    /// Per-provider memory of the base URL and model last configured, keyed
    /// by provider id; only round-tripped for persistence.
    pub polish_provider_configs: HashMap<String, PolishProviderConfig>,
    pub refinement_modes: Vec<RefinementMode>,
    /// Active mode id, or `None` for no refinement.
    pub active_refinement_mode_id: Option<String>,
    /// The ids the Shift+Tab cycle walks through, in order; "Off" is implicit
    /// after the last.
    pub quick_switch_mode_ids: Vec<String>,
    pub sound_fx: bool,
    pub hotwords: Vec<String>,
    pub translate_target: String,
    pub record_hotkey: String,
    pub mic_device: String,
    pub screen_context_mode: ScreenContextMode,
    pub correction_learning_mode: CorrectionLearningMode,
    pub correction_dictionary: Vec<CorrectionEntry>,
    /// Languages favorited for the menubar quick-switch ("auto" is implicit).
    pub favorite_stt_languages: Vec<String>,
    pub persistent_bar: bool,
    pub gemma_streaming: bool,
    pub gemma_keep_loaded: bool,
    /// Idle minutes before the Gemma sidecar is unloaded.
    pub gemma_idle_timeout_min: u64,
}

/// The record hotkey of a new profile.
pub fn default_record_hotkey() -> (s: String)
    ensures
        s@ == "right-control"@,
{
    "right-control".to_string()
}

/// The default of the settings flags that start switched on.
pub fn default_true() -> (b: bool)
    ensures
        b,
{
    true
}

/// The transcription language of a new profile: detected automatically.
pub fn default_stt_language() -> (s: String)
    ensures
        s@ == "auto"@,
{
    "auto".to_string()
}

/// The curated quick-switch languages for a new profile.
pub open spec fn spec_default_favorites() -> Seq<Seq<char>> {
    seq!["zh"@, "en"@, "ja"@, "ko"@, "es"@, "fr"@, "de"@, "pt"@, "ru"@]
}

/// The quick-switch languages of a new profile.
pub fn default_favorite_stt_languages() -> (v: Vec<String>)
    ensures
        v@.map_values(|s: String| s@) == spec_default_favorites(),
{
    let v = vec![
        "zh".to_string(),
        "en".to_string(),
        "ja".to_string(),
        "ko".to_string(),
        "es".to_string(),
        "fr".to_string(),
        "de".to_string(),
        "pt".to_string(),
        "ru".to_string(),
    ];
    assert(v@.map_values(|s: String| s@) =~= spec_default_favorites());
    v
}

/// The refinement endpoint of a new profile: a local Ollama server.
pub fn default_polish_base_url() -> (s: String)
    ensures
        s@ == "http://localhost:11434/v1"@,
{
    "http://localhost:11434/v1".to_string()
}

/// The refinement model of a new profile.
pub fn default_polish_model() -> (s: String)
    ensures
        s@ == "qwen2.5:3b-instruct"@,
{
    "qwen2.5:3b-instruct".to_string()
}

/// Idle minutes before the Gemma sidecar is unloaded, for a new profile.
pub fn default_gemma_idle_timeout_min() -> (m: u64)
    ensures
        m == 15,
{
    15
}

/// Refinement is off for a new profile.
pub fn default_active_refinement_mode_id() -> (id: Option<String>)
    ensures
        id is None,
{
    None
}

/// The quick-switch cycle of a new profile: the built-in modes, in order.
pub fn default_quick_switch_mode_ids() -> (v: Vec<String>)
    ensures
        v@.map_values(|s: String| s@) == crate::polish::spec_builtin_mode_ids(),
{
    let modes = default_refinement_modes();
    let mut v: Vec<String> = Vec::new();
    let mut i: usize = 0;
    while i < modes.len()
        invariant
            i <= modes@.len(),
            modes@.map_values(|m: RefinementMode| m.id@) == crate::polish::spec_builtin_mode_ids(),
            v@.map_values(|s: String| s@) == modes@.map_values(|m: RefinementMode| m.id@).take(i as int),
        decreases modes@.len() - i,
    {
        let ghost before = v@.map_values(|s: String| s@);
        let id = modes[i].id.clone();
        v.push(id);
        proof {
            let ids = modes@.map_values(|m: RefinementMode| m.id@);
            assert(ids.take(i + 1) =~= ids.take(i as int).push(ids[i as int]));
            assert(v@.map_values(|s: String| s@) =~= before.push(modes@[i as int].id@));
        }
        i = i + 1;
    }
    proof {
        let ids = modes@.map_values(|m: RefinementMode| m.id@);
        assert(ids.take(modes@.len() as int) =~= ids);
    }
    v
}

impl Default for Settings {
    fn default() -> (s: Self)
        ensures
            s.provider == Provider::Deepgram,
            s.deepgram_key@.len() == 0,
            s.groq_key@.len() == 0,
            s.openai_key@.len() == 0,
            s.elevenlabs_key@.len() == 0,
            s.anthropic_key@.len() == 0,
            s.language@ == "zh"@,
            s.stt_language@ == "auto"@,
            s.model is None,
            s.polish_provider == PolishProvider::Anthropic,
            s.polish_base_url@ == "http://localhost:11434/v1"@,
            s.polish_model@ == "qwen2.5:3b-instruct"@,
            s.polish_api_key@.len() == 0,
            s.refinement_modes@.map_values(|m: RefinementMode| m.id@) == crate::polish::spec_builtin_mode_ids(),
            s.active_refinement_mode_id is None,
            s.quick_switch_mode_ids@.map_values(|x: String| x@) == crate::polish::spec_builtin_mode_ids(),
            s.sound_fx,
            s.hotwords@.len() == 0,
            s.translate_target@ == "English"@,
            s.record_hotkey@ == "right-control"@,
            s.mic_device@.len() == 0,
            s.screen_context_mode == ScreenContextMode::Ax,
            s.correction_learning_mode == CorrectionLearningMode::Ask,
            s.correction_dictionary@.len() == 0,
            s.favorite_stt_languages@.map_values(|x: String| x@) == spec_default_favorites(),
            !s.persistent_bar,
            s.gemma_streaming,
            !s.gemma_keep_loaded,
            s.gemma_idle_timeout_min == 15,
    {
        Settings {
            provider: Provider::Deepgram,
            deepgram_key: String::new(),
            groq_key: String::new(),
            openai_key: String::new(),
            elevenlabs_key: String::new(),
            anthropic_key: String::new(),
            language: "zh".to_string(),
            stt_language: default_stt_language(),
            model: None,
            polish_provider: PolishProvider::default(),
            polish_base_url: default_polish_base_url(),
            polish_model: default_polish_model(),
            polish_api_key: String::new(),
            polish_provider_configs: HashMap::new(),
            refinement_modes: default_refinement_modes(),
            active_refinement_mode_id: default_active_refinement_mode_id(),
            quick_switch_mode_ids: default_quick_switch_mode_ids(),
            sound_fx: true,
            hotwords: Vec::new(),
            translate_target: "English".to_string(),
            record_hotkey: default_record_hotkey(),
            mic_device: String::new(),
            screen_context_mode: ScreenContextMode::default(),
            correction_learning_mode: CorrectionLearningMode::default(),
            correction_dictionary: Vec::new(),
            favorite_stt_languages: default_favorite_stt_languages(),
            persistent_bar: false,
            gemma_streaming: default_true(),
            gemma_keep_loaded: false,
            gemma_idle_timeout_min: default_gemma_idle_timeout_min(),
        }
    }
}

/// The key configured for a cloud provider; local engines need none.
pub open spec fn spec_api_key_for(s: Settings, p: Provider) -> Seq<char> {
    match p {
        Provider::Deepgram => s.deepgram_key@,
        Provider::Groq => s.groq_key@,
        Provider::Openai => s.openai_key@,
        Provider::Elevenlabs => s.elevenlabs_key@,
        _ => Seq::empty(),
    }
}

impl Settings {
    /// The API key for `provider`: the configured key of a cloud provider,
    /// empty for the local engines.
    pub fn api_key_for(&self, provider: Provider) -> (k: &str)
        ensures
            k@ == spec_api_key_for(*self, provider),
    {
        proof {
            reveal_strlit("");
        }
        match provider {
            Provider::Deepgram => self.deepgram_key.as_str(),
            Provider::Groq => self.groq_key.as_str(),
            Provider::Openai => self.openai_key.as_str(),
            Provider::Elevenlabs => self.elevenlabs_key.as_str(),
            Provider::Local => "",
            Provider::FluidAudio => "",
            Provider::Qwen3 => "",
            Provider::Gemma => "",
        }
    }
}

/// The recording state machine shared by the hotkey and the click-to-record
/// control. `Pressed` holds the monotonic millisecond clock reading at which
/// the modifier went down, before the hold is classified as push-to-talk or a
/// quick tap.
#[derive(Debug, Clone, Copy, PartialEq, Eq, Structural)]
pub enum RecMode {
    Idle,
    Pressed { since_ms: u64 },
    PushToTalk,
    Toggle,
}

impl Default for RecMode {
    fn default() -> (m: Self)
        ensures
            m == RecMode::Idle,
    {
        RecMode::Idle
    }
}

/// What a recording-control input announces.
#[derive(Debug, Clone, Copy, PartialEq, Eq, Structural)]
pub enum RecSignal {
    /// Nothing to announce.
    Nothing,
    /// `recording:start`.
    Start,
    /// `recording:start`, then `mode:changed` to toggle.
    StartToggle,
    /// `recording:stop`.
    Stop,
    /// `recording:cancel`.
    Cancel,
    /// `mode:changed` to toggle.
    ModeToggle,
    /// `mode:changed` to push-to-talk.
    ModePushToTalk,
    /// Cycle the active refinement mode.
    CycleRefinement,
}

/// A recording starts only from idle and ends only into idle.
pub open spec fn signal_consistent(prev: RecMode, next: RecMode, sig: RecSignal) -> bool {
    &&& (sig == RecSignal::Start || sig == RecSignal::StartToggle) ==> (prev == RecMode::Idle && next != RecMode::Idle)
    &&& (sig == RecSignal::Stop || sig == RecSignal::Cancel) ==> (prev != RecMode::Idle && next == RecMode::Idle)
    &&& (sig == RecSignal::Nothing || sig == RecSignal::CycleRefinement || sig == RecSignal::ModeToggle
        || sig == RecSignal::ModePushToTalk) ==> ((prev == RecMode::Idle) == (next == RecMode::Idle))
}

/// The click-to-record control: idle starts a toggle recording, anything
/// else stops the recording.
pub fn ui_toggle_recording(mode: &mut RecMode) -> (sig: RecSignal)
    ensures
        *old(mode) == RecMode::Idle ==> *final(mode) == RecMode::Toggle && sig == RecSignal::StartToggle,
        *old(mode) != RecMode::Idle ==> *final(mode) == RecMode::Idle && sig == RecSignal::Stop,
        signal_consistent(*old(mode), *final(mode), sig),
{
    match *mode {
        RecMode::Idle => {
            *mode = RecMode::Toggle;
            RecSignal::StartToggle
        },
        _ => {
            *mode = RecMode::Idle;
            RecSignal::Stop
        },
    }
}

/// The active refinement mode, sent to the chip bar; `None` is the "Off" slot.
#[derive(Debug, Clone)]
pub struct ActiveRefinementMode {
    pub mode: Option<RefinementMode>,
}

/// Index of the first mode with id `id`.
pub open spec fn first_mode_with_id(modes: Seq<RefinementMode>, id: Seq<char>) -> Option<int>
    decreases modes.len(),
{
    if modes.len() == 0 {
        None
    } else if modes[0].id@ == id {
        Some(0)
    } else {
        match first_mode_with_id(modes.drop_first(), id) {
            Some(i) => Some(i + 1),
            None => None,
        }
    }
}

proof fn lemma_first_mode_with_id(modes: Seq<RefinementMode>, id: Seq<char>)
    ensures
        first_mode_with_id(modes, id) matches Some(i) ==> 0 <= i < modes.len() && modes[i].id@ == id
            && forall|k: int| 0 <= k < i ==> (#[trigger] modes[k]).id@ != id,
        first_mode_with_id(modes, id) is None ==> forall|k: int| 0 <= k < modes.len() ==> (#[trigger] modes[k]).id@ != id,
    decreases modes.len(),
{
    if modes.len() > 0 && modes[0].id@ != id {
        lemma_first_mode_with_id(modes.drop_first(), id);
        assert forall|k: int| 1 <= k < modes.len() implies modes[k] == modes.drop_first()[k - 1] by {}
    }
}

/// The first refinement mode with id `id`.
pub fn lookup_mode<'a>(settings: &'a Settings, id: &str) -> (r: Option<&'a RefinementMode>)
    ensures
        match first_mode_with_id(settings.refinement_modes@, id@) {
            Some(i) => r matches Some(m) && *m == settings.refinement_modes@[i],
            None => r is None,
        },
{
    let modes = &settings.refinement_modes;
    proof {
        lemma_first_mode_with_id(modes@, id@);
    }
    let mut i: usize = 0;
    while i < modes.len()
        invariant
            modes@ == settings.refinement_modes@,
            i <= modes@.len(),
            forall|k: int| 0 <= k < i ==> (#[trigger] modes@[k]).id@ != id@,
            first_mode_with_id(modes@, id@) matches Some(j) ==> 0 <= j < modes@.len() && modes@[j].id@ == id@
                && forall|k: int| 0 <= k < j ==> (#[trigger] modes@[k]).id@ != id@,
            first_mode_with_id(modes@, id@) is None ==> forall|k: int| 0 <= k < modes@.len() ==> (#[trigger] modes@[k]).id@ != id@,
        decreases modes@.len() - i,
    {
        if str_eq(modes[i].id.as_str(), id) {
            proof {
                if first_mode_with_id(modes@, id@) is None {
                    assert(modes@[i as int].id@ != id@);
                } else {
                    let j = first_mode_with_id(modes@, id@)->0;
                    if j < i {
                        assert(modes@[j].id@ != id@);
                    } else if j > i {
                        assert(modes@[i as int].id@ != id@);
                    }
                }
            }
            assert(first_mode_with_id(modes@, id@) == Some(i as int));
            assert(modes@ == settings.refinement_modes@);
            return Some(&modes[i]);
        }
        i = i + 1;
    }
    None
}

/// A field-by-field copy of a refinement mode.
pub fn copy_mode(m: &RefinementMode) -> (c: RefinementMode)
    ensures
        c == *m,
{
    RefinementMode {
        id: m.id.clone(),
        name: m.name.clone(),
        emoji: m.emoji.clone(),
        prompt: m.prompt.clone(),
        builtin: m.builtin,
    }
}

/// The mode the active id names, if any.
pub open spec fn spec_active_mode(settings: Settings) -> Option<RefinementMode> {
    match settings.active_refinement_mode_id {
        None => None,
        Some(id) => match first_mode_with_id(settings.refinement_modes@, id@) {
            Some(i) => Some(settings.refinement_modes@[i]),
            None => None,
        },
    }
}

/// The payload describing the active refinement mode: the first mode with the
/// active id, or none when the id is unset or unknown.
pub fn active_mode_payload(settings: &Settings) -> (p: ActiveRefinementMode)
    ensures
        p.mode == spec_active_mode(*settings),
{
    let mode = match &settings.active_refinement_mode_id {
        None => None,
        Some(id) => match lookup_mode(settings, id.as_str()) {
            Some(m) => Some(copy_mode(m)),
            None => None,
        },
    };
    ActiveRefinementMode { mode }
}

/// Index of the first `id` in `cycle`.
pub open spec fn position_of(cycle: Seq<Seq<char>>, id: Seq<char>) -> Option<int>
    decreases cycle.len(),
{
    if cycle.len() == 0 {
        None
    } else if cycle[0] == id {
        Some(0)
    } else {
        match position_of(cycle.drop_first(), id) {
            Some(i) => Some(i + 1),
            None => None,
        }
    }
}

proof fn lemma_position_of(cycle: Seq<Seq<char>>, id: Seq<char>)
    ensures
        position_of(cycle, id) matches Some(i) ==> 0 <= i < cycle.len() && cycle[i] == id
            && forall|k: int| 0 <= k < i ==> cycle[k] != id,
        position_of(cycle, id) is None ==> forall|k: int| 0 <= k < cycle.len() ==> cycle[k] != id,
    decreases cycle.len(),
{
    if cycle.len() > 0 && cycle[0] != id {
        lemma_position_of(cycle.drop_first(), id);
        assert forall|k: int| 1 <= k < cycle.len() implies cycle[k] == cycle.drop_first()[k - 1] by {}
    }
}

/// The slot after `current` in the cycle `[cycle..., Off]`: Off leads to the
/// first id, the last id leads to Off, an unknown id leads to the first id,
/// and an empty cycle is always Off.
pub open spec fn spec_next_cycle_id(cycle: Seq<Seq<char>>, current: Option<Seq<char>>) -> Option<Seq<char>> {
    if cycle.len() == 0 {
        None
    } else {
        match current {
            None => Some(cycle[0]),
            Some(id) => match position_of(cycle, id) {
                Some(i) => if i + 1 < cycle.len() { Some(cycle[i + 1]) } else { None },
                None => Some(cycle[0]),
            },
        }
    }
}

/// The character view of an optional string slice.
pub open spec fn opt_str(o: Option<&str>) -> Option<Seq<char>> {
    match o {
        Some(x) => Some(x@),
        None => None,
    }
}

/// The character view of an optional string.
pub open spec fn opt_string(o: Option<String>) -> Option<Seq<char>> {
    match o {
        Some(x) => Some(x@),
        None => None,
    }
}

/// The next refinement mode id of the quick-switch cycle.
pub fn next_cycle_id(cycle: &[String], current: Option<&str>) -> (r: Option<String>)
    ensures
        opt_string(r) == spec_next_cycle_id(crate::text::strs(cycle@), opt_str(current)),
{
    let ghost ids = crate::text::strs(cycle@);
    if cycle.len() == 0 {
        return None;
    }
    match current {
        None => Some(cycle[0].clone()),
        Some(id) => {
            proof {
                lemma_position_of(ids, id@);
            }
            let mut i: usize = 0;
            while i < cycle.len()
                invariant
                    ids == crate::text::strs(cycle@),
                    opt_str(current) == Some(id@),
                    cycle@.len() > 0,
                    i <= cycle@.len(),
                    forall|k: int| 0 <= k < i ==> ids[k] != id@,
                    position_of(ids, id@) matches Some(j) ==> 0 <= j < ids.len() && ids[j] == id@
                        && forall|k: int| 0 <= k < j ==> ids[k] != id@,
                    position_of(ids, id@) is None ==> forall|k: int| 0 <= k < ids.len() ==> ids[k] != id@,
                decreases cycle@.len() - i,
            {
                assert(ids[i as int] == cycle@[i as int]@);
                if str_eq(cycle[i].as_str(), id) {
                    proof {
                        if position_of(ids, id@) is None {
                            assert(ids[i as int] != id@);
                        } else {
                            let j = position_of(ids, id@)->0;
                            if j < i {
                                assert(ids[j] != id@);
                            } else if j > i {
                                assert(ids[i as int] != id@);
                            }
                        }
                    }
                    assert(position_of(ids, id@) == Some(i as int));
                    assert(ids.len() == cycle@.len());
                    assert(i + 1 < cycle.len() ==> ids[i + 1] == cycle@[i + 1]@);
                    assert(opt_str(current) == Some(id@));
                    if i + 1 < cycle.len() {
                        return Some(cycle[i + 1].clone());
                    } else {
                        return None;
                    }
                }
                i = i + 1;
            }
            Some(cycle[0].clone())
        },
    }
}

/// The slot reached from `current` after `k` steps of the cycle.
pub open spec fn cycle_steps(cycle: Seq<Seq<char>>, current: Option<Seq<char>>, k: nat) -> Option<Seq<char>>
    decreases k,
{
    if k == 0 {
        current
    } else {
        cycle_steps(cycle, spec_next_cycle_id(cycle, current), (k - 1) as nat)
    }
}

/// No id occurs twice in the cycle.
pub open spec fn distinct_ids(cycle: Seq<Seq<char>>) -> bool {
    forall|i: int, j: int| 0 <= i < j < cycle.len() ==> cycle[i] != cycle[j]
}

proof fn lemma_cycle_walk(cycle: Seq<Seq<char>>, k: nat)
    requires
        distinct_ids(cycle),
        1 <= k <= cycle.len(),
    ensures
        cycle_steps(cycle, None, k) == Some(cycle[k - 1]),
    decreases k,
{
    if k == 1 {
        assert(cycle_steps(cycle, None, 1) == cycle_steps(cycle, spec_next_cycle_id(cycle, None), 0));
    } else {
        lemma_cycle_walk(cycle, (k - 1) as nat);
        lemma_cycle_steps_split(cycle, None, (k - 1) as nat);
        assert((k - 1) as nat + 1 == k);
        assert(cycle_steps(cycle, None, k) == spec_next_cycle_id(cycle, Some(cycle[k - 2])));
        lemma_position_of(cycle, cycle[k - 2]);
        assert(position_of(cycle, cycle[k - 2]) == Some(k - 2)) by {
            if position_of(cycle, cycle[k - 2]) is None {
                assert(cycle[k - 2] != cycle[k - 2]);
            } else {
                let j = position_of(cycle, cycle[k - 2])->0;
                if j < k - 2 {
                    assert(cycle[j] != cycle[k - 2]);
                } else if j > k - 2 {
                    assert(cycle[k - 2] != cycle[j]);
                }
            }
        }
    }
}

proof fn lemma_cycle_steps_split(cycle: Seq<Seq<char>>, current: Option<Seq<char>>, k: nat)
    ensures
        cycle_steps(cycle, current, k + 1) == spec_next_cycle_id(cycle, cycle_steps(cycle, current, k)),
    decreases k,
{
    let n = spec_next_cycle_id(cycle, current);
    assert(cycle_steps(cycle, current, k + 1) == cycle_steps(cycle, n, k));
    if k > 0 {
        lemma_cycle_steps_split(cycle, n, (k - 1) as nat);
        assert(cycle_steps(cycle, current, k) == cycle_steps(cycle, n, (k - 1) as nat));
        assert(((k - 1) as nat + 1) == k);
    }
}

/// Walking the quick-switch cycle from "Off" visits each id in order and
/// comes back to "Off" after one more step, when no id repeats.
pub proof fn law_cycle_visits_each_mode_then_off(cycle: Seq<Seq<char>>)
    requires
        distinct_ids(cycle),
    ensures
        forall|k: nat| 1 <= k <= cycle.len() ==> #[trigger] cycle_steps(cycle, None, k) == Some(cycle[k - 1]),
        cycle_steps(cycle, None, cycle.len() + 1) is None,
{
    assert forall|k: nat| 1 <= k <= cycle.len() implies #[trigger] cycle_steps(cycle, None, k) == Some(cycle[k - 1]) by {
        lemma_cycle_walk(cycle, k);
    }
    lemma_cycle_steps_split(cycle, None, cycle.len());
    if cycle.len() > 0 {
        lemma_cycle_walk(cycle, cycle.len());
        let last = cycle[cycle.len() - 1];
        lemma_position_of(cycle, last);
        assert(position_of(cycle, last) == Some(cycle.len() - 1)) by {
            let j = position_of(cycle, last)->0;
            if j < cycle.len() - 1 {
                assert(cycle[j] != cycle[cycle.len() - 1]);
            }
        }
    }
}

/// Set the active refinement mode; returns the payload to broadcast.
pub fn apply_active_refinement_mode(settings: &mut Settings, id: Option<String>) -> (p: ActiveRefinementMode)
    ensures
        *final(settings) == (Settings { active_refinement_mode_id: id, ..*old(settings) }),
        p.mode == spec_active_mode(*final(settings)),
{
    settings.active_refinement_mode_id = id;
    active_mode_payload(settings)
}

/// Advance the active refinement mode to the next slot of the quick-switch
/// cycle; returns the payload to broadcast.
pub fn apply_cycle_refinement_mode(settings: &mut Settings) -> (p: ActiveRefinementMode)
    ensures
        opt_string(final(settings).active_refinement_mode_id) == spec_next_cycle_id(
            crate::text::strs(old(settings).quick_switch_mode_ids@),
            opt_string(old(settings).active_refinement_mode_id),
        ),
        *final(settings) == (Settings { active_refinement_mode_id: final(settings).active_refinement_mode_id, ..*old(settings) }),
        p.mode == spec_active_mode(*final(settings)),
{
    let next = match &settings.active_refinement_mode_id {
        Some(cur) => next_cycle_id(settings.quick_switch_mode_ids.as_slice(), Some(cur.as_str())),
        None => next_cycle_id(settings.quick_switch_mode_ids.as_slice(), None),
    };
    settings.active_refinement_mode_id = next;
    active_mode_payload(settings)
}

/// Seconds of idle after which the Gemma sidecar unloads; zero keeps it
/// resident.
pub fn gemma_idle_policy_secs(keep_loaded: bool, idle_timeout_min: u64) -> (secs: u64)
    ensures
        secs == (if keep_loaded { 0 } else if idle_timeout_min * 60 > u64::MAX { u64::MAX as int } else { idle_timeout_min * 60 }),
{
    if keep_loaded {
        0
    } else if idle_timeout_min > u64::MAX / 60 {
        u64::MAX
    } else {
        idle_timeout_min * 60
    }
}

/// Whether saving new settings switched the transcription engine or model
/// (and so the new one should be warmed).
pub fn model_switched(prev_provider: Provider, prev_model: &Option<String>, next: &Settings) -> (r: bool)
    ensures
        r == (prev_provider != next.provider || opt_string(*prev_model) != opt_string(next.model)),
{
    if prev_provider != next.provider {
        return true;
    }
    match (prev_model, &next.model) {
        (None, None) => false,
        (Some(a), Some(b)) => !str_eq(a.as_str(), b.as_str()),
        _ => true,
    }
}

} // verus!
