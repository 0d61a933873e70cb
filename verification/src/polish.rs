//! The refinement pass: built-in refinement modes, the prompts sent to the
//! language model, the request each provider gets, and cleanup of the reply.

use vstd::prelude::*;
use vstd::string::StrSliceExecFns;
use crate::state::{CorrectionEntry, RefinementMode};
use crate::text::{
    chars_of_bounded, chars_of, find_chars, find_from, join_sep, join_strings, lemma_find_from,
    replace_all, replace_str, strs, trim_end_char, trim_end_matches_char, trim_whitespace, trim_ws,
    contains_seq, lemma_trim_ws_edges, occurs_at,
};

verus! {

/// The language model behind the refinement pass.
#[derive(Debug, Clone, Copy, PartialEq, Eq, Structural)]
pub enum PolishProvider {
    Anthropic,
    Ollama,
    LmStudio,
    MlxLm,
    Custom,
}

impl Default for PolishProvider {
    fn default() -> (p: Self)
        ensures
            p == PolishProvider::Anthropic,
    {
        PolishProvider::Anthropic
    }
}

/// What the pass does with the transcript.
#[derive(Debug, Clone, Copy)]
pub enum Mode<'a> {
    Polish,
    Translate { target_language: &'a str },
}

/// Where and how the refinement request goes.
#[derive(Debug, Clone)]
pub struct PolishConfig<'a> {
    pub provider: PolishProvider,
    pub anthropic_key: &'a str,
    pub base_url: &'a str,
    pub model: &'a str,
    pub api_key: &'a str,
    /// System prompt of the active refinement mode.
    pub prompt: &'a str,
}

/// Definition of one built-in refinement mode.
pub struct RefinementModeDefault {
    pub id: &'static str,
    pub name: &'static str,
    pub emoji: &'static str,
    pub prompt: &'static str,
}

/// Prompt of the built-in Polish mode.
pub const POLISH_PROMPT: &'static str = "You polish raw voice-typed transcripts. Fix obvious disfluencies, \
                 repetition, casing, and punctuation. Preserve the speaker's voice and meaning. \
                 Output ONLY the polished text, no preamble.";

/// Prompt of the built-in Email mode.
pub const EMAIL_PROMPT: &'static str = "You rewrite raw voice dictation into the body of a business email. \
                 \n\nRewrite rules: \
                 \n- Tone: professional and warm. Formalize casual fillers (\"wanna\" → \"would like to\", \"gonna\" → \"will\", \"hey\" → \"hi\", drop \"just\", \"basically\", \"like\"). Use complete, clear sentences. \
                 \n- Structure: insert blank-line paragraph breaks between distinct ideas. Even a 2-sentence dictation gets a line break between the greeting (if any) and the body. Do NOT produce a single wall of text. \
                 \n- Enumerations: when the speaker enumerates items (\"first... second... third...\", \"there are three things: A, B, C\", \"a few points: ...\"), reformat them as a markdown list — one item per line under a short intro sentence ending in a colon. Use numbered items (1. 2. 3.) when the speaker signaled order (\"first/second/third\"); use dash bullets (- ) otherwise. \
                 \n- Greeting: KEEP any greeting (\"Hi Benson\") the speaker actually said, verbatim on its own line. Do NOT invent or change the greeting if none was dictated. \
                 \n- Sign-off: ALWAYS end with a sign-off paragraph separated by a blank line. If the speaker dictated one (\"Best,\", \"Thanks,\", \"Cheers,\"), preserve it verbatim. Otherwise append exactly this closing on its own two lines: \"Best regards,\" then \"[Your name]\". Always use the literal placeholder \"[Your name]\" when inventing — never guess a sender name. \
                 \n- Fidelity: preserve all facts, names, numbers, dates, and the speaker's intent exactly. Never add commitments or content the speaker didn't dictate. \
                 \n\nOutput the email body only. No preamble, no surrounding quotes, no explanation.";

/// Prompt of the built-in Code prompt mode.
pub const CODE_PROMPT: &'static str = "You rewrite voice-typed dictation as a structured coding prompt suitable for an AI coding assistant. \
                 Organize the content into clear sections: Goal, Context, Constraints, and any acceptance criteria the \
                 speaker mentioned. Preserve technical terms, identifiers, file names, and library names exactly as \
                 spoken. Use code-fence markdown for any literal code or commands. Output ONLY the structured prompt, \
                 no preamble.";

/// Prompt of the built-in Notes mode.
pub const NOTES_PROMPT: &'static str = "You rewrite voice-typed dictation as well-formatted markdown notes. Add a short title as an H2 header \
                 if the speaker introduced a topic. Use bullet points for lists, **bold** for key terms the speaker \
                 emphasized, and paragraph breaks for natural shifts in topic. Preserve facts, numbers, and names exactly. \
                 Output ONLY the markdown notes, no preamble.";

/// Prompt of the built-in Translate mode; `{target}` stands for the target language.
pub const TRANSLATE_PROMPT: &'static str = "You translate voice-typed transcripts to {target}. \
                 Produce a natural, fluent translation. \
                 Preserve names, numbers, and technical terms. \
                 Output ONLY the translated text, no preamble.";

/// Ids of the built-in modes, in their initial cycle order.
pub open spec fn spec_builtin_mode_ids() -> Seq<Seq<char>> {
    seq!["polish"@, "email"@, "code"@, "notes"@, "translate"@]
}

/// The built-in mode at position `i`: id, name, emoji and prompt.
pub open spec fn spec_builtin_mode(i: int) -> (Seq<char>, Seq<char>, Seq<char>, Seq<char>) {
    if i == 0 {
        ("polish"@, "Polish"@, "✨"@, POLISH_PROMPT@)
    } else if i == 1 {
        ("email"@, "Email"@, "✉️"@, EMAIL_PROMPT@)
    } else if i == 2 {
        ("code"@, "Code prompt"@, "💻"@, CODE_PROMPT@)
    } else if i == 3 {
        ("notes"@, "Notes"@, "📝"@, NOTES_PROMPT@)
    } else {
        ("translate"@, "Translate"@, "🌐"@, TRANSLATE_PROMPT@)
    }
}

/// The id, name, emoji and prompt of a built-in definition.
pub open spec fn def_view(d: RefinementModeDefault) -> (Seq<char>, Seq<char>, Seq<char>, Seq<char>) {
    (d.id@, d.name@, d.emoji@, d.prompt@)
}

/// The id, name, emoji and prompt of a refinement mode.
pub open spec fn mode_view(m: RefinementMode) -> (Seq<char>, Seq<char>, Seq<char>, Seq<char>) {
    (m.id@, m.name@, m.emoji@, m.prompt@)
}

/// The built-in refinement modes shipped with the app, Polish first.
pub fn builtin_refinement_modes() -> (v: Vec<RefinementModeDefault>)
    ensures
        v@.len() == 5,
        forall|i: int| 0 <= i < 5 ==> def_view(#[trigger] v@[i]) == spec_builtin_mode(i),
{
    let v = vec![
        RefinementModeDefault { id: "polish", name: "Polish", emoji: "✨", prompt: POLISH_PROMPT },
        RefinementModeDefault { id: "email", name: "Email", emoji: "✉️", prompt: EMAIL_PROMPT },
        RefinementModeDefault { id: "code", name: "Code prompt", emoji: "💻", prompt: CODE_PROMPT },
        RefinementModeDefault { id: "notes", name: "Notes", emoji: "📝", prompt: NOTES_PROMPT },
        RefinementModeDefault { id: "translate", name: "Translate", emoji: "🌐", prompt: TRANSLATE_PROMPT },
    ];
    v
}

/// The built-in modes as user-editable refinement modes, all marked built in.
pub fn default_refinement_modes() -> (v: Vec<RefinementMode>)
    ensures
        v@.len() == 5,
        forall|i: int| 0 <= i < 5 ==> mode_view(#[trigger] v@[i]) == spec_builtin_mode(i),
        forall|i: int| 0 <= i < 5 ==> (#[trigger] v@[i]).builtin,
        v@.map_values(|m: RefinementMode| m.id@) == spec_builtin_mode_ids(),
{
    let defs = builtin_refinement_modes();
    let mut v: Vec<RefinementMode> = Vec::new();
    let mut i: usize = 0;
    while i < defs.len()
        invariant
            defs@.len() == 5,
            forall|k: int| 0 <= k < 5 ==> def_view(#[trigger] defs@[k]) == spec_builtin_mode(k),
            i <= 5,
            v@.len() == i,
            forall|k: int| 0 <= k < i ==> mode_view(#[trigger] v@[k]) == spec_builtin_mode(k),
            forall|k: int| 0 <= k < i ==> (#[trigger] v@[k]).builtin,
        decreases 5 - i,
    {
        let d = &defs[i];
        let ghost before = v@;
        v.push(RefinementMode {
            id: d.id.to_string(),
            name: d.name.to_string(),
            emoji: d.emoji.to_string(),
            prompt: d.prompt.to_string(),
            builtin: true,
        });
        proof {
            assert forall|k: int| 0 <= k < i + 1 implies mode_view(#[trigger] v@[k]) == spec_builtin_mode(k) by {
                if k < i {
                    assert(v@[k] == before[k]);
                } else {
                    assert(def_view(defs@[k]) == spec_builtin_mode(k));
                }
            }
            assert forall|k: int| 0 <= k < i + 1 implies (#[trigger] v@[k]).builtin by {
                if k < i {
                    assert(v@[k] == before[k]);
                }
            }
        }
        i = i + 1;
    }
    proof {
        let ids = v@.map_values(|m: RefinementMode| m.id@);
        assert forall|k: int| 0 <= k < 5 implies #[trigger] ids[k] == spec_builtin_mode_ids()[k] by {
            assert(mode_view(v@[k]) == spec_builtin_mode(k));
        }
        assert(ids =~= spec_builtin_mode_ids());
    }
    v
}

/// `s` from position `i` with every `open ... close` block removed; an
/// unclosed block runs to the end.
pub open spec fn strip_blocks_from(s: Seq<char>, open: Seq<char>, close: Seq<char>, i: int) -> Seq<char>
    decreases s.len() - i,
{
    if i < 0 || i > s.len() {
        Seq::empty()
    } else {
        match find_from(s, open, i) {
            None => s.skip(i),
            Some(a) => if a < i || a + open.len() > s.len() {
                s.skip(i)
            } else {
                match find_from(s, close, a + open.len()) {
                    None => s.subrange(i, a),
                    Some(b) => if b + close.len() <= i || b + close.len() > s.len() {
                        s.subrange(i, a)
                    } else {
                        s.subrange(i, a) + strip_blocks_from(s, open, close, b + close.len())
                    },
                }
            },
        }
    }
}

/// A reply with its `<think>...</think>` reasoning blocks removed (an
/// unclosed `<think>` drops the rest), trimmed.
pub open spec fn spec_strip_thinking(text: Seq<char>) -> Seq<char> {
    trim_ws(strip_blocks_from(text, "<think>"@, "</think>"@, 0))
}

/// Remove the `<think>...</think>` blocks that reasoning models emit, and an
/// unclosed leading `<think>` with everything after it; trim the result.
pub fn strip_thinking(text: &str) -> (r: String)
    ensures
        r@ == spec_strip_thinking(text@),
{
    let open_tag = "<think>";
    let close_tag = "</think>";
    let h = chars_of_bounded(text);
    let open = chars_of(open_tag);
    let close = chars_of(close_tag);
    proof {
        reveal_strlit("<think>");
        reveal_strlit("</think>");
    }
    assert(open@.len() == 7);
    assert(close@.len() == 8);
    let n = h.len();
    let mut out = String::new();
    let mut i: usize = 0;
    let mut done = false;
    while !done
        invariant
            h@ == text@,
            open@ == open_tag@,
            close@ == close_tag@,
            open@.len() == 7,
            close@.len() == 8,
            n == text@.len(),
            n <= isize::MAX,
            i <= n,
            !done ==> out@ + strip_blocks_from(text@, open@, close@, i as int) == strip_blocks_from(text@, open@, close@, 0),
            done ==> out@ == strip_blocks_from(text@, open@, close@, 0),
        decreases (n + 1 - i) * 2 + (if done { 0int } else { 1int }),
    {
        proof {
            lemma_find_from(text@, open@, i as int);
        }
        match find_chars(&h, &open, i) {
            None => {
                let tail = text.substring_char(i, n);
                proof {
                    assert(tail@ =~= text@.skip(i as int));
                }
                out.append(tail);
                done = true;
            },
            Some(a) => {
                let piece = text.substring_char(i, a);
                let ghost o = out@;
                out.append(piece);
                proof {
                    lemma_find_from(text@, close@, a + 7);
                }
                match find_chars(&h, &close, a + 7) {
                    None => {
                        done = true;
                    },
                    Some(b) => {
                        proof {
                            assert(o + piece@ + strip_blocks_from(text@, open@, close@, b + 8) =~= o + (piece@ + strip_blocks_from(text@, open@, close@, b + 8)));
                        }
                        i = b + 8;
                    },
                }
            },
        }
    }
    let t = trim_whitespace(out.as_str());
    t.to_string()
}

/// A reply with no `<think>` tag is only trimmed.
pub proof fn law_no_think_tag_only_trims(text: Seq<char>)
    requires
        !contains_seq(text, "<think>"@),
    ensures
        spec_strip_thinking(text) == trim_ws(text),
{
    lemma_find_from(text, "<think>"@, 0);
    if find_from(text, "<think>"@, 0) is Some {
        let j = find_from(text, "<think>"@, 0)->0;
        assert(crate::text::occurs_at(text, "<think>"@, j));
    }
    assert(text.skip(0) =~= text);
}

/// The view of a refinement mode argument.
pub open spec fn mode_target(mode: Mode) -> Option<Seq<char>> {
    match mode {
        Mode::Polish => None,
        Mode::Translate { target_language } => Some(target_language@),
    }
}

/// The hot-word clause of the system prompt.
pub open spec fn hotword_clause(hotwords: Seq<Seq<char>>) -> Seq<char> {
    if hotwords.len() == 0 {
        Seq::empty()
    } else {
        "\n\nProper-noun / hot-word corrections to apply when applicable: "@ + join_sep(hotwords, ", "@)
    }
}

/// One learned correction as a sentence fragment.
pub open spec fn correction_phrase(e: (Seq<char>, Seq<char>)) -> Seq<char> {
    "\""@ + e.0 + "\" should be \""@ + e.1 + "\""@
}

/// The learned-corrections clause of the system prompt.
pub open spec fn correction_clause(dict: Seq<(Seq<char>, Seq<char>)>) -> Seq<char> {
    if dict.len() == 0 {
        Seq::empty()
    } else {
        "\n\nLearned corrections: "@ + join_sep(dict.map_values(|e: (Seq<char>, Seq<char>)| correction_phrase(e)), "; "@) + "."@
    }
}

/// The system and user messages of a refinement request.
pub open spec fn spec_build_prompt(
    text: Seq<char>,
    hotwords: Seq<Seq<char>>,
    dict: Seq<(Seq<char>, Seq<char>)>,
    prompt: Seq<char>,
    target: Option<Seq<char>>,
) -> (Seq<char>, Seq<char>) {
    let base = match target {
        None => prompt,
        Some(t) => replace_all(prompt, "{target}"@, t),
    };
    (base + hotword_clause(hotwords) + correction_clause(dict), "Transcript:\n"@ + text)
}

/// An occurrence inside `x` is an occurrence inside `pre + x + post`.
proof fn lemma_occurs_in_context(pre: Seq<char>, x: Seq<char>, post: Seq<char>, needle: Seq<char>, i: int)
    requires
        occurs_at(x, needle, i),
    ensures
        occurs_at(pre + x + post, needle, pre.len() + i),
{
    let whole = pre + x + post;
    assert(whole.subrange(pre.len() + i, pre.len() + i + needle.len()) =~= x.subrange(i, i + needle.len()));
}

/// Every item of a joined list occurs in the joined text.
proof fn lemma_join_sep_has_item(items: Seq<Seq<char>>, sep: Seq<char>, k: int)
    requires
        0 <= k < items.len(),
    ensures
        contains_seq(join_sep(items, sep), items[k]),
    decreases items.len(),
{
    let j = join_sep(items, sep);
    if items.len() == 1 {
        assert(j.subrange(0, items[0].len() as int) =~= items[0]);
        assert(occurs_at(j, items[k], 0));
    } else {
        let init = items.drop_last();
        let ji = join_sep(init, sep);
        assert(j == ji + sep + items.last());
        if k == items.len() - 1 {
            assert(j.subrange((ji + sep).len() as int, j.len() as int) =~= items.last());
            assert(occurs_at(j, items[k], (ji + sep).len() as int));
        } else {
            lemma_join_sep_has_item(init, sep, k);
            assert(init[k] == items[k]);
            let i = choose|i: int| occurs_at(ji, items[k], i);
            lemma_occurs_in_context(Seq::empty(), ji, sep + items.last(), items[k], i);
            assert(Seq::<char>::empty() + ji + (sep + items.last()) =~= j);
            assert(occurs_at(j, items[k], i));
        }
    }
}

/// The system prompt names every learned correction, as `"<from>" should be
/// "<to>"`, and every hotword, whatever the mode.
pub proof fn law_prompt_names_every_correction(
    text: Seq<char>,
    hotwords: Seq<Seq<char>>,
    dict: Seq<(Seq<char>, Seq<char>)>,
    prompt: Seq<char>,
    target: Option<Seq<char>>,
)
    ensures
        forall|k: int| 0 <= k < dict.len() ==> contains_seq(
            spec_build_prompt(text, hotwords, dict, prompt, target).0,
            "\""@ + (#[trigger] dict[k]).0 + "\" should be \""@ + dict[k].1 + "\""@,
        ),
        forall|k: int| 0 <= k < hotwords.len() ==> contains_seq(
            spec_build_prompt(text, hotwords, dict, prompt, target).0,
            #[trigger] hotwords[k],
        ),
{
    let base = match target {
        None => prompt,
        Some(t) => replace_all(prompt, "{target}"@, t),
    };
    let hc = hotword_clause(hotwords);
    let cc = correction_clause(dict);
    let sys = spec_build_prompt(text, hotwords, dict, prompt, target).0;
    assert(sys == base + hc + cc);
    assert forall|k: int| 0 <= k < dict.len() implies contains_seq(
        sys,
        "\""@ + (#[trigger] dict[k]).0 + "\" should be \""@ + dict[k].1 + "\""@,
    ) by {
        let phrases = dict.map_values(|e: (Seq<char>, Seq<char>)| correction_phrase(e));
        let needle = "\""@ + dict[k].0 + "\" should be \""@ + dict[k].1 + "\""@;
        assert(phrases[k] == needle);
        lemma_join_sep_has_item(phrases, "; "@, k);
        let js = join_sep(phrases, "; "@);
        let i = choose|i: int| occurs_at(js, needle, i);
        let pre = base + hc + "\n\nLearned corrections: "@;
        lemma_occurs_in_context(pre, js, "."@, needle, i);
        assert(cc == "\n\nLearned corrections: "@ + js + "."@);
        assert(pre + js + "."@ =~= sys);
    }
    assert forall|k: int| 0 <= k < hotwords.len() implies contains_seq(sys, #[trigger] hotwords[k]) by {
        lemma_join_sep_has_item(hotwords, ", "@, k);
        let js = join_sep(hotwords, ", "@);
        let i = choose|i: int| occurs_at(js, hotwords[k], i);
        let pre = base + "\n\nProper-noun / hot-word corrections to apply when applicable: "@;
        lemma_occurs_in_context(pre, js, cc, hotwords[k], i);
        assert(hc == "\n\nProper-noun / hot-word corrections to apply when applicable: "@ + js);
        assert(pre + js + cc =~= sys);
    }
}

/// The dictionary as `(from, to)` pairs.
pub open spec fn entry_pairs(dict: Seq<CorrectionEntry>) -> Seq<(Seq<char>, Seq<char>)> {
    dict.map_values(|e: CorrectionEntry| e.pair())
}

fn correction_clause_text(dict: &[CorrectionEntry]) -> (r: String)
    ensures
        r@ == correction_clause(entry_pairs(dict@)),
{
    if dict.len() == 0 {
        return String::new();
    }
    let mut phrases: Vec<String> = Vec::new();
    let mut i: usize = 0;
    while i < dict.len()
        invariant
            i <= dict@.len(),
            strs(phrases@) == entry_pairs(dict@).take(i as int).map_values(|e: (Seq<char>, Seq<char>)| correction_phrase(e)),
        decreases dict@.len() - i,
    {
        let e = &dict[i];
        let mut p = "\"".to_string();
        p.append(e.from.as_str());
        p.append("\" should be \"");
        p.append(e.to.as_str());
        p.append("\"");
        let ghost before = strs(phrases@);
        phrases.push(p);
        proof {
            let pairs = entry_pairs(dict@);
            assert(pairs.take(i + 1) =~= pairs.take(i as int).push(pairs[i as int]));
            assert(strs(phrases@) =~= before.push(correction_phrase(pairs[i as int])));
        }
        i = i + 1;
    }
    proof {
        assert(entry_pairs(dict@).take(dict@.len() as int) =~= entry_pairs(dict@));
    }
    let joined = join_strings(phrases.as_slice(), "; ");
    let mut r = "\n\nLearned corrections: ".to_string();
    r.append(joined.as_str());
    r.append(".");
    r
}

/// Build the system and user messages for the refinement request: the mode's
/// prompt (with `{target}` replaced for a translation), then a hot-word
/// clause and a learned-corrections clause when those lists are nonempty; the
/// user message carries the transcript.
pub fn build_prompt(
    text: &str,
    hotwords: &[String],
    correction_dict: &[CorrectionEntry],
    config: &PolishConfig,
    mode: Mode,
) -> (r: (String, String))
    ensures
        (r.0@, r.1@) == spec_build_prompt(text@, strs(hotwords@), entry_pairs(correction_dict@), config.prompt@, mode_target(mode)),
{
    let hotword_text = if hotwords.len() == 0 {
        String::new()
    } else {
        let mut h = "\n\nProper-noun / hot-word corrections to apply when applicable: ".to_string();
        let joined = join_strings(hotwords, ", ");
        h.append(joined.as_str());
        h
    };
    let correction_text = correction_clause_text(correction_dict);
    let mut system = match mode {
        Mode::Polish => config.prompt.to_string(),
        Mode::Translate { target_language } => {
            proof {
                reveal_strlit("{target}");
            }
            replace_str(config.prompt, "{target}", target_language)
        },
    };
    system.append(hotword_text.as_str());
    system.append(correction_text.as_str());
    let mut user = "Transcript:\n".to_string();
    user.append(text);
    (system, user)
}

/// Why a refinement pass yields no text: the request cannot be made, or
/// the reply is empty.
#[derive(Debug, Clone, Copy, PartialEq, Eq, Structural)]
pub enum PolishError {
    MissingAnthropicKey,
    MissingBaseUrl,
    MissingModelName,
    /// The model's reply carried no text.
    EmptyResponse,
}

/// The request a refinement pass makes.
#[derive(Debug, Clone)]
pub enum PolishRequest {
    /// The transcript is blank: the result is empty, nothing is sent.
    Empty,
    Anthropic { system: String, user: String, api_key: String },
    OpenAiCompat { url: String, model: String, bearer: Option<String>, system: String, user: String },
}

/// The chat-completions endpoint under an OpenAI-compatible base URL.
pub open spec fn chat_url(base_url: Seq<char>) -> Seq<char> {
    trim_end_char(base_url, '/') + "/chat/completions"@
}

/// The request planned for a transcript: blank text needs none; Anthropic
/// needs a key; an OpenAI-compatible server needs a base URL and a model.
pub open spec fn spec_plan_polish(
    text: Seq<char>,
    hotwords: Seq<Seq<char>>,
    dict: Seq<(Seq<char>, Seq<char>)>,
    provider: PolishProvider,
    anthropic_key: Seq<char>,
    base_url: Seq<char>,
    model: Seq<char>,
    prompt: Seq<char>,
    target: Option<Seq<char>>,
) -> Result<Option<(Seq<char>, Seq<char>)>, PolishError> {
    if trim_ws(text).len() == 0 {
        Ok(None)
    } else if provider == PolishProvider::Anthropic {
        if anthropic_key.len() == 0 {
            Err(PolishError::MissingAnthropicKey)
        } else {
            Ok(Some(spec_build_prompt(text, hotwords, dict, prompt, target)))
        }
    } else if base_url.len() == 0 {
        Err(PolishError::MissingBaseUrl)
    } else if model.len() == 0 {
        Err(PolishError::MissingModelName)
    } else {
        Ok(Some(spec_build_prompt(text, hotwords, dict, prompt, target)))
    }
}

/// Plan the refinement request for `text`. The caller sends it and passes the
/// reply through `strip_thinking`.
pub fn plan_polish(
    text: &str,
    hotwords: &[String],
    correction_dict: &[CorrectionEntry],
    config: &PolishConfig,
    mode: Mode,
) -> (r: Result<PolishRequest, PolishError>)
    ensures
        ({
            let s = spec_plan_polish(text@, strs(hotwords@), entry_pairs(correction_dict@), config.provider,
                config.anthropic_key@, config.base_url@, config.model@, config.prompt@, mode_target(mode));
            match r {
                Err(e) => s == Err::<Option<(Seq<char>, Seq<char>)>, PolishError>(e),
                Ok(PolishRequest::Empty) => s == Ok::<Option<(Seq<char>, Seq<char>)>, PolishError>(None),
                Ok(PolishRequest::Anthropic { system, user, api_key }) => config.provider == PolishProvider::Anthropic
                    && s == Ok::<Option<(Seq<char>, Seq<char>)>, PolishError>(Some((system@, user@)))
                    && api_key@ == config.anthropic_key@,
                Ok(PolishRequest::OpenAiCompat { url, model, bearer, system, user }) => config.provider != PolishProvider::Anthropic
                    && s == Ok::<Option<(Seq<char>, Seq<char>)>, PolishError>(Some((system@, user@)))
                    && url@ == chat_url(config.base_url@)
                    && model@ == config.model@
                    && (match bearer {
                        Some(k) => config.api_key@.len() > 0 && k@ == config.api_key@,
                        None => config.api_key@.len() == 0,
                    }),
            }
        }),
{
    if trim_whitespace(text).is_empty() {
        return Ok(PolishRequest::Empty);
    }
    match config.provider {
        PolishProvider::Anthropic => {
            if config.anthropic_key.is_empty() {
                return Err(PolishError::MissingAnthropicKey);
            }
            let (system, user) = build_prompt(text, hotwords, correction_dict, config, mode);
            Ok(PolishRequest::Anthropic { system, user, api_key: config.anthropic_key.to_string() })
        },
        _ => {
            if config.base_url.is_empty() {
                return Err(PolishError::MissingBaseUrl);
            }
            if config.model.is_empty() {
                return Err(PolishError::MissingModelName);
            }
            let (system, user) = build_prompt(text, hotwords, correction_dict, config, mode);
            let mut url = trim_end_matches_char(config.base_url, '/').to_string();
            url.append("/chat/completions");
            let bearer = if config.api_key.is_empty() {
                None
            } else {
                Some(config.api_key.to_string())
            };
            Ok(PolishRequest::OpenAiCompat { url, model: config.model.to_string(), bearer, system, user })
        },
    }
}

/// The first entry that carries text.
pub open spec fn first_text(blocks: Seq<Option<String>>) -> Option<Seq<char>>
    decreases blocks.len(),
{
    if blocks.len() == 0 {
        None
    } else {
        match blocks[0] {
            Some(t) => Some(t@),
            None => first_text(blocks.drop_first()),
        }
    }
}

/// The refined text of an Anthropic reply: the first content block that
/// carries text, with reasoning blocks removed and trimmed; an error when no
/// block carries text.
pub fn anthropic_reply(blocks: Vec<Option<String>>) -> (r: Result<String, PolishError>)
    ensures
        match first_text(blocks@) {
            None => r == Err::<String, PolishError>(PolishError::EmptyResponse),
            Some(t) => r matches Ok(x) && x@ == spec_strip_thinking(t),
        },
{
    let mut i: usize = 0;
    assert(blocks@.skip(0) =~= blocks@);
    while i < blocks.len()
        invariant
            i <= blocks@.len(),
            first_text(blocks@) == first_text(blocks@.skip(i as int)),
        decreases blocks@.len() - i,
    {
        assert(blocks@.skip(i as int).drop_first() =~= blocks@.skip(i + 1));
        match &blocks[i] {
            Some(t) => {
                return Ok(strip_thinking(t.as_str()));
            },
            None => {},
        }
        i = i + 1;
    }
    assert(blocks@.skip(i as int).len() == 0);
    Err(PolishError::EmptyResponse)
}

/// The refined text of an OpenAI-compatible reply, given each choice's
/// message content: the first choice's content with reasoning blocks removed
/// and trimmed; an error when there is no choice or it has no content.
pub fn openai_reply(choices: Vec<Option<String>>) -> (r: Result<String, PolishError>)
    ensures
        match (if choices@.len() == 0 { None } else { choices@[0] }) {
            None => r == Err::<String, PolishError>(PolishError::EmptyResponse),
            Some(t) => r matches Ok(x) && x@ == spec_strip_thinking(t@),
        },
{
    if choices.len() == 0 {
        return Err(PolishError::EmptyResponse);
    }
    match &choices[0] {
        Some(t) => Ok(strip_thinking(t.as_str())),
        None => Err(PolishError::EmptyResponse),
    }
}

/// The model-listing endpoint for an OpenAI-compatible base URL, or `None`
/// when the base URL is blank.
pub fn models_url(base_url: &str) -> (r: Option<String>)
    ensures
        match r {
            None => trim_ws(base_url@).len() == 0,
            Some(u) => trim_ws(base_url@).len() > 0 && u@ == trim_end_char(base_url@, '/') + "/models"@,
        },
{
    if trim_whitespace(base_url).is_empty() {
        return None;
    }
    let mut url = trim_end_matches_char(base_url, '/').to_string();
    url.append("/models");
    Some(url)
}

/// Lexicographic order of character sequences by code point, a proper
/// prefix first (the order of `String`, since UTF-8 keeps code-point order).
pub open spec fn seq_lt(a: Seq<char>, b: Seq<char>) -> bool
    decreases a.len(),
{
    if a.len() == 0 {
        b.len() > 0
    } else if b.len() == 0 {
        false
    } else if a[0] != b[0] {
        (a[0] as u32) < (b[0] as u32)
    } else {
        seq_lt(a.drop_first(), b.drop_first())
    }
}

proof fn lemma_seq_lt_irreflexive(a: Seq<char>)
    ensures
        !seq_lt(a, a),
    decreases a.len(),
{
    if a.len() > 0 {
        lemma_seq_lt_irreflexive(a.drop_first());
    }
}

proof fn lemma_seq_lt_transitive(a: Seq<char>, b: Seq<char>, c: Seq<char>)
    requires
        seq_lt(a, b),
        seq_lt(b, c),
    ensures
        seq_lt(a, c),
    decreases a.len(),
{
    if a.len() > 0 && b.len() > 0 && c.len() > 0 {
        if a[0] == b[0] && b[0] == c[0] {
            lemma_seq_lt_transitive(a.drop_first(), b.drop_first(), c.drop_first());
        }
    }
}

proof fn lemma_seq_lt_total(a: Seq<char>, b: Seq<char>)
    requires
        a != b,
    ensures
        seq_lt(a, b) || seq_lt(b, a),
    decreases a.len(),
{
    if a.len() > 0 && b.len() > 0 {
        if a[0] == b[0] {
            if a.drop_first() == b.drop_first() {
                assert(a =~= seq![a[0]] + a.drop_first());
                assert(b =~= seq![b[0]] + b.drop_first());
            }
            lemma_seq_lt_total(a.drop_first(), b.drop_first());
        } else {
            vstd::utf8::char_u32_cast(a[0], a[0] as u32);
            vstd::utf8::char_u32_cast(b[0], b[0] as u32);
        }
    } else if a.len() == 0 && b.len() == 0 {
        assert(a =~= b);
    }
}

/// `a` sorts before `b`.
pub fn str_less(a: &str, b: &str) -> (r: bool)
    ensures
        r == seq_lt(a@, b@),
{
    let ac = chars_of(a);
    let bc = chars_of(b);
    let mut i: usize = 0;
    assert(a@.skip(0) =~= a@ && b@.skip(0) =~= b@);
    while i < ac.len() && i < bc.len() && ac[i] == bc[i]
        invariant
            ac@ == a@,
            bc@ == b@,
            i <= ac@.len(),
            i <= bc@.len(),
            seq_lt(a@, b@) == seq_lt(a@.skip(i as int), b@.skip(i as int)),
        decreases ac@.len() - i,
    {
        proof {
            let x = a@.skip(i as int);
            let y = b@.skip(i as int);
            assert(x.drop_first() =~= a@.skip(i + 1));
            assert(y.drop_first() =~= b@.skip(i + 1));
            assert(x[0] == y[0]);
        }
        i = i + 1;
    }
    proof {
        let x = a@.skip(i as int);
        let y = b@.skip(i as int);
        if i < ac@.len() && i < bc@.len() {
            assert(x[0] == a@[i as int]);
            assert(y[0] == b@[i as int]);
        }
    }
    if i == ac.len() {
        i < bc.len()
    } else if i == bc.len() {
        false
    } else {
        let x = ac[i];
        let y = bc[i];
        proof {
            let xs = a@.skip(i as int);
            let ys = b@.skip(i as int);
            assert(xs[0] == x && ys[0] == y);
        }
        (x as u32) < (y as u32)
    }
}

/// Strictly increasing: sorted with no repeats.
pub open spec fn strictly_sorted(v: Seq<Seq<char>>) -> bool {
    forall|i: int, j: int| 0 <= i < j < v.len() ==> seq_lt(#[trigger] v[i], #[trigger] v[j])
}

/// Model ids as the settings dropdown lists them: the ids that are not blank,
/// sorted, each once.
pub fn normalize_model_ids(ids: &[String]) -> (out: Vec<String>)
    ensures
        strictly_sorted(strs(out@)),
        forall|x: Seq<char>| strs(out@).contains(x) <==> (strs(ids@).contains(x) && trim_ws(x).len() > 0),
{
    let mut out: Vec<String> = Vec::new();
    let mut i: usize = 0;
    while i < ids.len()
        invariant
            i <= ids@.len(),
            strictly_sorted(strs(out@)),
            forall|x: Seq<char>| strs(out@).contains(x) <==> (strs(ids@).take(i as int).contains(x) && trim_ws(x).len() > 0),
        decreases ids@.len() - i,
    {
        let id = ids[i].as_str();
        let ghost before = strs(out@);
        let ghost seen = strs(ids@).take(i as int);
        proof {
            assert(strs(ids@).take(i + 1) =~= seen.push(id@));
        }
        if !trim_whitespace(id).is_empty() {
            let mut p: usize = 0;
            while p < out.len() && str_less(out[p].as_str(), id)
                invariant
                    before == strs(out@),
                    p <= out@.len(),
                    forall|k: int| 0 <= k < p ==> seq_lt(#[trigger] before[k], id@),
                decreases out@.len() - p,
            {
                p = p + 1;
            }
            let dup = p < out.len() && crate::text::str_eq(out[p].as_str(), id);
            if !dup {
                proof {
                    if p < before.len() {
                        lemma_seq_lt_total(before[p as int], id@);
                    }
                    assert forall|x: Seq<char>| before.contains(x) implies x != id@ by {
                        let k = choose|k: int| 0 <= k < before.len() && before[k] == x;
                        if k < p {
                            lemma_seq_lt_irreflexive(id@);
                        } else if k > p {
                            assert(seq_lt(before[p as int], before[k]));
                            lemma_seq_lt_transitive(id@, before[p as int], before[k]);
                            lemma_seq_lt_irreflexive(id@);
                        } else {
                            lemma_seq_lt_irreflexive(id@);
                        }
                    }
                }
                out.insert(p, id.to_string());
                proof {
                    let after = strs(out@);
                    assert(after =~= before.take(p as int).push(id@) + before.skip(p as int));
                    assert forall|a: int, b: int| 0 <= a < b < after.len() implies seq_lt(#[trigger] after[a], #[trigger] after[b]) by {
                        if b < p {
                            assert(after[a] == before[a] && after[b] == before[b]);
                        } else if b == p {
                            assert(after[a] == before[a]);
                        } else if a == p {
                            assert(after[b] == before[b - 1]);
                            if b - 1 > p {
                                assert(seq_lt(before[p as int], before[b - 1]));
                                lemma_seq_lt_transitive(id@, before[p as int], before[b - 1]);
                            }
                        } else if a < p {
                            assert(after[a] == before[a] && after[b] == before[b - 1]);
                            if b - 1 >= p {
                                if b - 1 > p {
                                    assert(seq_lt(before[p as int], before[b - 1]));
                                    lemma_seq_lt_transitive(id@, before[p as int], before[b - 1]);
                                }
                                lemma_seq_lt_transitive(before[a], id@, before[b - 1]);
                            }
                        } else {
                            assert(after[a] == before[a - 1] && after[b] == before[b - 1]);
                        }
                    }
                    assert forall|x: Seq<char>| after.contains(x) <==> (before.contains(x) || x == id@) by {
                        if after.contains(x) {
                            let k = choose|k: int| 0 <= k < after.len() && after[k] == x;
                            if k < p {
                                assert(before[k] == x);
                            } else if k > p {
                                assert(before[k - 1] == x);
                            }
                        }
                        if before.contains(x) {
                            let k = choose|k: int| 0 <= k < before.len() && before[k] == x;
                            if k < p {
                                assert(after[k] == x);
                            } else {
                                assert(after[k + 1] == x);
                            }
                        }
                        if x == id@ {
                            assert(after[p as int] == x);
                        }
                    }
                    assert forall|x: Seq<char>| seen.push(id@).contains(x) <==> (seen.contains(x) || x == id@) by {
                        if seen.push(id@).contains(x) {
                            let k = choose|k: int| 0 <= k < seen.len() + 1 && seen.push(id@)[k] == x;
                            if k < seen.len() {
                                assert(seen[k] == x);
                            }
                        }
                        if seen.contains(x) {
                            let k = choose|k: int| 0 <= k < seen.len() && seen[k] == x;
                            assert(seen.push(id@)[k] == x);
                        }
                        if x == id@ {
                            assert(seen.push(id@)[seen.len() as int] == x);
                        }
                    }
                    assert forall|x: Seq<char>| after.contains(x) <==> (strs(ids@).take(i + 1).contains(x) && trim_ws(x).len() > 0) by {
                        assert(strs(ids@).take(i + 1) == seen.push(id@));
                        assert(before.contains(x) <==> (seen.contains(x) && trim_ws(x).len() > 0));
                    }
                }
            } else {
                proof {
                    assert(before[p as int] == id@);
                    assert forall|x: Seq<char>| seen.push(id@).contains(x) <==> (seen.contains(x) || x == id@) by {
                        if seen.push(id@).contains(x) {
                            let k = choose|k: int| 0 <= k < seen.len() + 1 && seen.push(id@)[k] == x;
                            if k < seen.len() {
                                assert(seen[k] == x);
                            }
                        }
                        if seen.contains(x) {
                            let k = choose|k: int| 0 <= k < seen.len() && seen[k] == x;
                            assert(seen.push(id@)[k] == x);
                        }
                        if x == id@ {
                            assert(seen.push(id@)[seen.len() as int] == x);
                        }
                    }
                    assert(before.contains(id@));
                    assert forall|x: Seq<char>| before.contains(x) <==> (strs(ids@).take(i + 1).contains(x) && trim_ws(x).len() > 0) by {
                        assert(strs(ids@).take(i + 1) == seen.push(id@));
                        assert(before.contains(x) <==> (seen.contains(x) && trim_ws(x).len() > 0));
                    }
                }
            }
        } else {
            proof {
                assert forall|x: Seq<char>| seen.push(id@).contains(x) && trim_ws(x).len() > 0 <==> (seen.contains(x) && trim_ws(x).len() > 0) by {
                    if seen.push(id@).contains(x) && trim_ws(x).len() > 0 {
                        let k = choose|k: int| 0 <= k < seen.len() + 1 && seen.push(id@)[k] == x;
                        if k < seen.len() {
                            assert(seen[k] == x);
                        }
                    }
                    if seen.contains(x) {
                        let k = choose|k: int| 0 <= k < seen.len() && seen[k] == x;
                        assert(seen.push(id@)[k] == x);
                    }
                }
                assert forall|x: Seq<char>| before.contains(x) <==> (strs(ids@).take(i + 1).contains(x) && trim_ws(x).len() > 0) by {
                    assert(strs(ids@).take(i + 1) == seen.push(id@));
                    assert(before.contains(x) <==> (seen.contains(x) && trim_ws(x).len() > 0));
                }
            }
        }
        i = i + 1;
    }
    proof {
        assert(strs(ids@).take(ids@.len() as int) =~= strs(ids@));
    }
    out
}

} // verus!
