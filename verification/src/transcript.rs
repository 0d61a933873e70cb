//! Transcript text handling: joining fragments at script-aware seams,
//! cleaning engine output, spotting canned hallucinations and chat-style
//! refusals, and the rolling-window accumulator of the streaming engine.

use vstd::prelude::*;
use vstd::string::StrSliceExecFns;
use crate::text::{
    char_is_alphanumeric, char_is_whitespace, chars_of, contains_seq, lowercase_of, str_contains,
    str_eq, str_to_lowercase, string_push, trim_end_ws, trim_start_ws, trim_whitespace,
    trim_whitespace_end, trim_whitespace_start, trim_ws, unicode_alphabetic, unicode_numeric,
    unicode_whitespace,
};

verus! {

/// Alphanumeric in the Unicode sense.
pub open spec fn is_alnum(c: char) -> bool {
    unicode_alphabetic(c) || unicode_numeric(c)
}

/// Code points of scripts written without spaces between words (CJK symbols,
/// kana, ideographs, Hangul, fullwidth forms), as `wants_space_boundary` sees them.
pub open spec fn in_unspaced_block(u: u32) -> bool {
    (0x3000 <= u <= 0x303F) || (0x3040 <= u <= 0x30FF) || (0x3400 <= u <= 0x4DBF)
        || (0x4E00 <= u <= 0x9FFF) || (0xAC00 <= u <= 0xD7AF) || (0xF900 <= u <= 0xFAFF)
        || (0xFF00 <= u <= 0xFFEF)
}

/// A word character of a space-separated script.
pub open spec fn spaced_word_char(c: char) -> bool {
    is_alnum(c) && !in_unspaced_block(c as u32)
}

/// Whether a seam beside `c` may need a space: `c` is alphanumeric and not
/// from a CJK, kana, Hangul or fullwidth block.
pub fn wants_space_boundary(c: char) -> (r: bool)
    ensures
        r == spaced_word_char(c),
{
    if !char_is_alphanumeric(c) {
        return false;
    }
    let u = c as u32;
    let cjk = (0x3000 <= u && u <= 0x303F) || (0x3040 <= u && u <= 0x30FF) || (0x3400 <= u && u
        <= 0x4DBF) || (0x4E00 <= u && u <= 0x9FFF) || (0xAC00 <= u && u <= 0xD7AF) || (0xF900 <= u
        && u <= 0xFAFF) || (0xFF00 <= u && u <= 0xFFEF);
    !cjk
}

/// `committed` and `next` joined: whitespace at the seam is dropped, and one
/// space is put back only when both sides of the seam are word characters of
/// space-separated scripts.
pub open spec fn spec_join_transcript(committed: Seq<char>, next: Seq<char>) -> Seq<char> {
    let a = trim_end_ws(committed);
    let b = trim_start_ws(next);
    if a.len() == 0 {
        b
    } else if b.len() == 0 {
        a
    } else if spaced_word_char(a.last()) && spaced_word_char(b[0]) {
        a.push(' ') + b
    } else {
        a + b
    }
}

/// Script-aware seams: when the character on either side of the seam is a
/// CJK symbol (U+3000..U+303F), a kana (U+3040..U+30FF), a CJK ideograph
/// (U+3400..U+4DBF, U+4E00..U+9FFF, U+F900..U+FAFF), a Hangul syllable
/// (U+AC00..U+D7AF) or a fullwidth form (U+FF00..U+FFEF), the fragments are
/// joined with no space; when both are letters or digits below U+3000, one
/// space separates them.
pub proof fn law_join_seam_by_script(committed: Seq<char>, next: Seq<char>)
    ensures
        ({
            let a = trim_end_ws(committed);
            let b = trim_start_ws(next);
            &&& (a.len() > 0 && b.len() > 0 && ({
                ||| (0x3000 <= a.last() as u32 <= 0x30FF) || (0x3400 <= a.last() as u32 <= 0x4DBF)
                ||| (0x4E00 <= a.last() as u32 <= 0x9FFF) || (0xAC00 <= a.last() as u32 <= 0xD7AF)
                ||| (0xF900 <= a.last() as u32 <= 0xFAFF) || (0xFF00 <= a.last() as u32 <= 0xFFEF)
                ||| (0x3000 <= b[0] as u32 <= 0x30FF) || (0x3400 <= b[0] as u32 <= 0x4DBF)
                ||| (0x4E00 <= b[0] as u32 <= 0x9FFF) || (0xAC00 <= b[0] as u32 <= 0xD7AF)
                ||| (0xF900 <= b[0] as u32 <= 0xFAFF) || (0xFF00 <= b[0] as u32 <= 0xFFEF)
            })) ==> spec_join_transcript(committed, next) == a + b
            &&& (a.len() > 0 && b.len() > 0 && (a.last() as u32) < 0x3000 && (b[0] as u32) < 0x3000
                && (unicode_alphabetic(a.last()) || unicode_numeric(a.last()))
                && (unicode_alphabetic(b[0]) || unicode_numeric(b[0])))
                ==> spec_join_transcript(committed, next) == a + seq![' '] + b
        }),
{
    let a = trim_end_ws(committed);
    let b = trim_start_ws(next);
    if a.len() > 0 && b.len() > 0 {
        assert(a.push(' ') =~= a + seq![' ']);
    }
}

/// Join a committed transcript prefix with the next fragment.
pub fn join_transcript(committed: &str, next: &str) -> (r: String)
    ensures
        r@ == spec_join_transcript(committed@, next@),
{
    let a = trim_whitespace_end(committed);
    let b = trim_whitespace_start(next);
    let ac = chars_of(a);
    let bc = chars_of(b);
    if ac.len() == 0 {
        return b.to_string();
    }
    if bc.len() == 0 {
        return a.to_string();
    }
    let needs_space = wants_space_boundary(ac[ac.len() - 1]) && wants_space_boundary(bc[0]);
    let mut s = a.to_string();
    if needs_space {
        string_push(&mut s, ' ');
    }
    s.append(b);
    s
}

proof fn lemma_trim_end_idempotent(s: Seq<char>)
    ensures
        trim_end_ws(trim_end_ws(s)) == trim_end_ws(s),
    decreases s.len(),
{
    if s.len() > 0 && unicode_whitespace(s.last()) {
        lemma_trim_end_idempotent(s.drop_last());
    }
}

proof fn lemma_trim_start_idempotent(s: Seq<char>)
    ensures
        trim_start_ws(trim_start_ws(s)) == trim_start_ws(s),
    decreases s.len(),
{
    if s.len() > 0 && unicode_whitespace(s[0]) {
        lemma_trim_start_idempotent(s.drop_first());
    }
}

/// Whitespace at the seam does not matter: joining gives the same text
/// whatever whitespace the committed text ends with or the next fragment
/// starts with.
pub proof fn law_join_ignores_seam_whitespace(committed: Seq<char>, next: Seq<char>)
    ensures
        spec_join_transcript(committed, next) == spec_join_transcript(trim_end_ws(committed), trim_start_ws(next)),
{
    lemma_trim_end_idempotent(committed);
    lemma_trim_start_idempotent(next);
}

/// The lowercased text contains one of the chat-drift markers.
pub open spec fn has_drift_marker(t: Seq<char>) -> bool {
    contains_seq(t, "i cannot fulfill"@) || contains_seq(t, "i can't fulfill"@)
        || contains_seq(t, "i cannot fulfil"@) || contains_seq(t, "i can't fulfil"@)
        || contains_seq(t, "i cannot transcribe"@) || contains_seq(t, "i can't transcribe"@)
        || contains_seq(t, "i'm unable to"@) || contains_seq(t, "i am unable to"@)
        || contains_seq(t, "i cannot provide"@) || contains_seq(t, "i can't provide"@)
        || contains_seq(t, "i cannot complete"@) || contains_seq(t, "i can't complete"@)
        || contains_seq(t, "no audio file"@) || contains_seq(t, "there is no audio"@)
        || contains_seq(t, "no audio was provided"@) || contains_seq(t, "please upload the audio"@)
        || contains_seq(t, "please provide the audio"@) || contains_seq(t, "please provide the"@)
        || contains_seq(t, "i don't have access to the audio"@)
        || contains_seq(t, "i do not have access to the audio"@) || contains_seq(t, "as an ai"@)
        || contains_seq(t, "i'm just a"@) || contains_seq(t, "i am just a"@)
}

/// True when an instruction-tuned audio model replied to or refused the
/// speech instead of transcribing it: the lowercased text contains one of the
/// refusal and meta-commentary markers.
pub fn is_chat_refusal(text: &str) -> (r: bool)
    ensures
        r == has_drift_marker(lowercase_of(text@)),
{
    let lowered = str_to_lowercase(text);
    let t = lowered.as_str();
    str_contains(t, "i cannot fulfill") || str_contains(t, "i can't fulfill")
        || str_contains(t, "i cannot fulfil") || str_contains(t, "i can't fulfil")
        || str_contains(t, "i cannot transcribe") || str_contains(t, "i can't transcribe")
        || str_contains(t, "i'm unable to") || str_contains(t, "i am unable to")
        || str_contains(t, "i cannot provide") || str_contains(t, "i can't provide")
        || str_contains(t, "i cannot complete") || str_contains(t, "i can't complete")
        || str_contains(t, "no audio file") || str_contains(t, "there is no audio")
        || str_contains(t, "no audio was provided") || str_contains(t, "please upload the audio")
        || str_contains(t, "please provide the audio") || str_contains(t, "please provide the")
        || str_contains(t, "i don't have access to the audio")
        || str_contains(t, "i do not have access to the audio") || str_contains(t, "as an ai")
        || str_contains(t, "i'm just a") || str_contains(t, "i am just a")
}

/// Trailing characters dropped before matching canned hallucinations.
pub open spec fn is_hallucination_trail(c: char) -> bool {
    c == '.' || c == ',' || c == '!' || c == '?' || c == ';' || c == ':' || c == '。' || c == '！'
        || c == '？' || c == '；' || c == '：' || c == '…' || c == '"' || c == '\'' || c == '）'
        || c == ')' || c == ' '
}

/// Drop trailing hallucination punctuation.
pub open spec fn trim_end_hallucination_trail(s: Seq<char>) -> Seq<char>
    decreases s.len(),
{
    if s.len() > 0 && is_hallucination_trail(s.last()) {
        trim_end_hallucination_trail(s.drop_last())
    } else {
        s
    }
}

/// The normalized form compared against the canned replies.
pub open spec fn hallucination_norm(text: Seq<char>) -> Seq<char> {
    lowercase_of(trim_ws(trim_end_hallucination_trail(trim_ws(text))))
}

/// The canned outputs engines produce on (near-)silence.
pub open spec fn is_canned_reply(n: Seq<char>) -> bool {
    n == "thank you"@ || n == "thank you for watching"@ || n == "thanks for watching"@
        || n == "thank you very much"@ || n == "please subscribe"@ || n == "you"@
        || n == "how are you doing today"@ || n == "how are you"@ || n == "how can i help you"@
        || n == "how can i help you today"@ || n == "hello, how can i help you"@ || n == "謝謝"@
        || n == "謝謝大家"@ || n == "謝謝觀看"@ || n == "谢谢"@ || n == "谢谢大家"@
        || n == "谢谢观看"@
}

fn hallucination_trail(c: char) -> (r: bool)
    ensures
        r == is_hallucination_trail(c),
{
    c == '.' || c == ',' || c == '!' || c == '?' || c == ';' || c == ':' || c == '。' || c == '！'
        || c == '？' || c == '；' || c == '：' || c == '…' || c == '"' || c == '\'' || c == '）'
        || c == ')' || c == ' '
}

fn trim_hallucination_trail(s: &str) -> (t: &str)
    ensures
        t@ == trim_end_hallucination_trail(s@),
{
    let cs = chars_of(s);
    let n = cs.len();
    let mut b: usize = n;
    assert(s@.subrange(0, n as int) =~= s@);
    while b > 0 && hallucination_trail(cs[b - 1])
        invariant
            cs@ == s@,
            n == s@.len(),
            b <= n,
            trim_end_hallucination_trail(s@) == trim_end_hallucination_trail(s@.subrange(0, b as int)),
        decreases b,
    {
        proof {
            let r = s@.subrange(0, b as int);
            assert(r.drop_last() == s@.subrange(0, b - 1));
            assert(r.last() == s@[b - 1]);
        }
        b = b - 1;
    }
    proof {
        let r = s@.subrange(0, b as int);
        if r.len() > 0 {
            assert(r.last() == s@[b - 1]);
        }
    }
    s.substring_char(0, b)
}

/// Whether a live-preview text is one of the canned outputs that Whisper and
/// Gemma produce on near-silence ("thank you", "how can i help you", "谢谢",
/// ...). The whole text is compared, after trimming trailing punctuation and
/// lowercasing, so sentences that merely contain these words never match.
pub fn is_preview_hallucination(text: &str) -> (r: bool)
    ensures
        r == is_canned_reply(hallucination_norm(text@)),
{
    let t1 = trim_whitespace(text);
    let t2 = trim_hallucination_trail(t1);
    let t3 = trim_whitespace(t2);
    let lowered = str_to_lowercase(t3);
    let n = lowered.as_str();
    str_eq(n, "thank you") || str_eq(n, "thank you for watching") || str_eq(n, "thanks for watching")
        || str_eq(n, "thank you very much") || str_eq(n, "please subscribe") || str_eq(n, "you")
        || str_eq(n, "how are you doing today") || str_eq(n, "how are you") || str_eq(n, "how can i help you")
        || str_eq(n, "how can i help you today") || str_eq(n, "hello, how can i help you") || str_eq(n, "謝謝")
        || str_eq(n, "謝謝大家") || str_eq(n, "謝謝觀看") || str_eq(n, "谢谢") || str_eq(n, "谢谢大家")
        || str_eq(n, "谢谢观看")
}

/// Sentence marks an engine may stutter at an edge, ASCII and CJK forms.
pub open spec fn is_sentence_mark(c: char) -> bool {
    c == '.' || c == ',' || c == '!' || c == '?' || c == ';' || c == ':' || c == '。' || c == '，'
        || c == '、' || c == '！' || c == '？' || c == '；' || c == '：'
}

fn sentence_mark(c: char) -> (r: bool)
    ensures
        r == is_sentence_mark(c),
{
    c == '.' || c == ',' || c == '!' || c == '?' || c == ';' || c == ':' || c == '。' || c == '，'
        || c == '、' || c == '！' || c == '？' || c == '；' || c == '：'
}

/// Engine output trimmed, with one stuttered leading sentence mark (and the
/// whitespace after it) removed.
pub open spec fn spec_sanitize_output(s: Seq<char>) -> Seq<char> {
    let t = trim_ws(s);
    if t.len() == 0 {
        Seq::empty()
    } else if is_sentence_mark(t[0]) {
        trim_start_ws(t.drop_first())
    } else {
        t
    }
}

/// Clean a Parakeet transcript: trim it and drop a single leading sentence
/// mark such as ". " or "。" that the model sometimes emits at the onset.
pub fn sanitize_output(s: &str) -> (r: String)
    ensures
        r@ == spec_sanitize_output(s@),
{
    let trimmed = trim_whitespace(s);
    let cs = chars_of(trimmed);
    if cs.len() == 0 {
        return String::new();
    }
    if sentence_mark(cs[0]) {
        let rest = trimmed.substring_char(1, cs.len());
        assert(rest@ =~= trimmed@.drop_first());
        trim_whitespace_start(rest).to_string()
    } else {
        trimmed.to_string()
    }
}

/// End (exclusive) of the run from `i` whose characters are all whitespace
/// (when `ws`) or all non-whitespace.
pub open spec fn class_run_end(s: Seq<char>, i: int, ws: bool) -> int
    decreases s.len() - i,
{
    if 0 <= i < s.len() && unicode_whitespace(s[i]) == ws {
        class_run_end(s, i + 1, ws)
    } else {
        i
    }
}

proof fn lemma_class_run_end(s: Seq<char>, i: int, ws: bool)
    requires
        0 <= i <= s.len(),
    ensures
        i <= class_run_end(s, i, ws) <= s.len(),
        forall|k: int| i <= k < class_run_end(s, i, ws) ==> unicode_whitespace(#[trigger] s[k]) == ws,
        class_run_end(s, i, ws) < s.len() ==> unicode_whitespace(s[class_run_end(s, i, ws)]) != ws,
        (i < s.len() && unicode_whitespace(s[i]) == ws) ==> class_run_end(s, i, ws) > i,
    decreases s.len() - i,
{
    if i < s.len() && unicode_whitespace(s[i]) == ws {
        lemma_class_run_end(s, i + 1, ws);
    }
}

/// The maximal runs of whitespace and of non-whitespace of `s` from `i`.
pub open spec fn class_runs_from(s: Seq<char>, i: int) -> Seq<Seq<char>>
    decreases s.len() - i,
{
    if i < 0 || i >= s.len() {
        Seq::empty()
    } else {
        let e = class_run_end(s, i, unicode_whitespace(s[i]));
        if e <= i || e > s.len() {
            Seq::empty()
        } else {
            seq![s.subrange(i, e)] + class_runs_from(s, e)
        }
    }
}

/// The runs of `s` concatenate back to `s` (from `i` on).
pub proof fn law_runs_concatenate(s: Seq<char>, i: int)
    requires
        0 <= i <= s.len(),
    ensures
        class_runs_from(s, i).flatten() == s.skip(i),
    decreases s.len() - i,
{
    if i < s.len() {
        let e = class_run_end(s, i, unicode_whitespace(s[i]));
        lemma_class_run_end(s, i, unicode_whitespace(s[i]));
        law_runs_concatenate(s, e);
        let rest = class_runs_from(s, e);
        assert((seq![s.subrange(i, e)] + rest).flatten() == seq![s.subrange(i, e)].flatten() + rest.flatten()) by {
            vstd::seq_lib::lemma_flatten_concat(seq![s.subrange(i, e)], rest);
        }
        assert(seq![s.subrange(i, e)].drop_first() =~= Seq::<Seq<char>>::empty());
        assert(seq![s.subrange(i, e)].flatten() == s.subrange(i, e) + Seq::<Seq<char>>::empty().flatten());
        assert(Seq::<Seq<char>>::empty().flatten() =~= Seq::<char>::empty());
        assert(s.subrange(i, e) + s.skip(e) =~= s.skip(i));
    } else {
        assert(s.skip(i) =~= Seq::<char>::empty());
    }
}

/// Split `s` into its maximal runs of whitespace and of non-whitespace, in
/// order, so that concatenating the pieces gives `s` back.
pub fn split_keep_delimiters(s: &str) -> (out: Vec<String>)
    ensures
        out@.map_values(|p: String| p@) == class_runs_from(s@, 0),
{
    let cs = chars_of(s);
    let n = cs.len();
    let mut out: Vec<String> = Vec::new();
    let mut i: usize = 0;
    assert(out@.map_values(|p: String| p@) + class_runs_from(s@, 0) =~= class_runs_from(s@, 0));
    while i < n
        invariant
            cs@ == s@,
            n == s@.len(),
            i <= n,
            out@.map_values(|p: String| p@) + class_runs_from(s@, i as int) == class_runs_from(s@, 0),
        decreases n - i,
    {
        let ws = char_is_whitespace(cs[i]);
        let mut j = i + 1;
        proof {
            lemma_class_run_end(s@, i as int, ws);
        }
        while j < n && char_is_whitespace(cs[j]) == ws
            invariant
                cs@ == s@,
                n == s@.len(),
                i < j <= n,
                class_run_end(s@, i as int, ws) == class_run_end(s@, j as int, ws),
            decreases n - j,
        {
            j = j + 1;
        }
        proof {
            lemma_class_run_end(s@, j as int, ws);
        }
        let piece = s.substring_char(i, j).to_string();
        let ghost before = out@.map_values(|p: String| p@);
        out.push(piece);
        proof {
            assert(class_runs_from(s@, i as int) == seq![s@.subrange(i as int, j as int)] + class_runs_from(s@, j as int));
            assert(out@.map_values(|p: String| p@) =~= before.push(s@.subrange(i as int, j as int)));
            assert(before.push(s@.subrange(i as int, j as int)) + class_runs_from(s@, j as int) =~= before + class_runs_from(s@, i as int));
        }
        i = j;
    }
    proof {
        assert(class_runs_from(s@, n as int) == Seq::<Seq<char>>::empty());
        assert(out@.map_values(|p: String| p@) + Seq::<Seq<char>>::empty() =~= out@.map_values(|p: String| p@));
    }
    out
}

/// Nonempty and all whitespace.
pub open spec fn all_whitespace(s: Seq<char>) -> bool {
    s.len() > 0 && forall|k: int| 0 <= k < s.len() ==> unicode_whitespace(#[trigger] s[k])
}

/// Whether `s` is nonempty and made only of whitespace.
pub fn is_whitespace_only(s: &str) -> (r: bool)
    ensures
        r == all_whitespace(s@),
{
    let cs = chars_of(s);
    if cs.len() == 0 {
        return false;
    }
    let mut i: usize = 0;
    while i < cs.len()
        invariant
            cs@ == s@,
            i <= cs@.len(),
            forall|k: int| 0 <= k < i ==> unicode_whitespace(#[trigger] s@[k]),
        decreases cs@.len() - i,
    {
        if !char_is_whitespace(cs[i]) {
            return false;
        }
        i = i + 1;
    }
    true
}

/// Number of leading characters that are not alphanumeric.
pub open spec fn lead_len(s: Seq<char>) -> nat
    decreases s.len(),
{
    if s.len() > 0 && !is_alnum(s[0]) {
        1 + lead_len(s.drop_first())
    } else {
        0
    }
}

/// Number of trailing characters that are not alphanumeric.
pub open spec fn trail_len(s: Seq<char>) -> nat
    decreases s.len(),
{
    if s.len() > 0 && !is_alnum(s.last()) {
        1 + trail_len(s.drop_last())
    } else {
        0
    }
}

/// A token split into leading punctuation, core and trailing punctuation,
/// where punctuation is anything not alphanumeric; a token with no
/// alphanumeric character is all lead.
pub open spec fn spec_strip_edge_punct(s: Seq<char>) -> (Seq<char>, Seq<char>, Seq<char>) {
    let a = lead_len(s);
    if a >= s.len() {
        (s, Seq::empty(), Seq::empty())
    } else {
        let b = s.len() - trail_len(s);
        (s.take(a as int), s.subrange(a as int, b), s.skip(b))
    }
}

proof fn lemma_lead_len(s: Seq<char>)
    ensures
        lead_len(s) <= s.len(),
        forall|k: int| 0 <= k < lead_len(s) ==> !is_alnum(#[trigger] s[k]),
        lead_len(s) < s.len() ==> is_alnum(s[lead_len(s) as int]),
    decreases s.len(),
{
    if s.len() > 0 && !is_alnum(s[0]) {
        lemma_lead_len(s.drop_first());
        assert forall|k: int| 0 <= k < lead_len(s) implies !is_alnum(#[trigger] s[k]) by {
            if k > 0 {
                assert(s[k] == s.drop_first()[k - 1]);
            }
        }
    }
}

proof fn lemma_trail_len(s: Seq<char>)
    ensures
        trail_len(s) <= s.len(),
        forall|k: int| s.len() - trail_len(s) <= k < s.len() ==> !is_alnum(#[trigger] s[k]),
        trail_len(s) < s.len() ==> is_alnum(s[s.len() - 1 - trail_len(s)]),
    decreases s.len(),
{
    if s.len() > 0 && !is_alnum(s.last()) {
        lemma_trail_len(s.drop_last());
        assert forall|k: int| s.len() - trail_len(s) <= k < s.len() implies !is_alnum(#[trigger] s[k]) by {
            if k < s.len() - 1 {
                assert(s[k] == s.drop_last()[k]);
            }
        }
    }
}

/// The three parts always concatenate back to the token.
pub proof fn law_strip_edge_parts_concatenate(s: Seq<char>)
    ensures
        ({
            let (lead, core, trail) = spec_strip_edge_punct(s);
            lead + core + trail == s
        }),
{
    lemma_lead_len(s);
    lemma_trail_len(s);
    let a = lead_len(s);
    if a < s.len() {
        let b = s.len() - trail_len(s);
        assert(a < b) by {
            if a >= b {
                assert(!is_alnum(s[a as int]));
            }
        }
        assert(s.take(a as int) + s.subrange(a as int, b) + s.skip(b) =~= s);
    } else {
        assert(s + Seq::<char>::empty() + Seq::<char>::empty() =~= s);
    }
}

/// Split a token into (leading punctuation, core, trailing punctuation),
/// where punctuation is anything not alphanumeric.
pub fn strip_edge_punct(token: &str) -> (r: (&str, &str, &str))
    ensures
        (r.0@, r.1@, r.2@) == spec_strip_edge_punct(token@),
{
    let cs = chars_of(token);
    let n = cs.len();
    let mut a: usize = 0;
    proof {
        lemma_lead_len(token@);
        lemma_trail_len(token@);
    }
    while a < n && !char_is_alphanumeric(cs[a])
        invariant
            cs@ == token@,
            n == token@.len(),
            a <= lead_len(token@),
            lead_len(token@) <= token@.len(),
            lead_len(token@) < token@.len() ==> is_alnum(token@[lead_len(token@) as int]),
        decreases n - a,
    {
        a = a + 1;
    }
    if a == n {
        proof {
            reveal_strlit("");
        }
        return (token, "", "");
    }
    assert(a == lead_len(token@));
    let mut b: usize = n;
    while b > a && !char_is_alphanumeric(cs[b - 1])
        invariant
            cs@ == token@,
            n == token@.len(),
            a < n,
            a == lead_len(token@),
            a <= b <= n,
            n - b <= trail_len(token@),
            trail_len(token@) <= token@.len(),
            trail_len(token@) < token@.len() ==> is_alnum(token@[token@.len() - 1 - trail_len(token@)]),
        decreases b,
    {
        b = b - 1;
    }
    assert(b == n - trail_len(token@)) by {
        if b > a {
            assert(is_alnum(token@[b - 1]));
        } else {
            assert(is_alnum(token@[a as int]));
        }
    }
    (token.substring_char(0, a), token.substring_char(a, b), token.substring_char(b, n))
}

/// Code points of scripts joined without spaces, as the streaming engine's
/// window stitching sees them.
pub open spec fn is_cjk_char(c: char) -> bool {
    let u = c as u32;
    (0x3000 <= u <= 0x9fff) || (0xac00 <= u <= 0xd7af) || (0xf900 <= u <= 0xfaff) || (0xff00 <= u <= 0xffef)
}

/// Whether `c` is a CJK symbol, ideograph, Hangul syllable or fullwidth form.
pub fn is_cjk(c: char) -> (r: bool)
    ensures
        r == is_cjk_char(c),
{
    let u = c as u32;
    (0x3000 <= u && u <= 0x9fff) || (0xac00 <= u && u <= 0xd7af) || (0xf900 <= u && u <= 0xfaff) || (0xff00 <= u && u <= 0xffef)
}

/// `acc` with the trimmed segment appended, separated by one space unless a
/// CJK character stands on either side of the seam.
pub open spec fn spec_append_segment(acc: Seq<char>, seg: Seq<char>) -> Seq<char> {
    let t = trim_ws(seg);
    if t.len() == 0 {
        acc
    } else if acc.len() > 0 && !is_cjk_char(acc.last()) && !is_cjk_char(t[0]) {
        acc.push(' ') + t
    } else {
        acc + t
    }
}

/// Append a window's transcript to the stitched accumulator.
pub fn append_segment(acc: &mut String, seg: &str)
    ensures
        final(acc)@ == spec_append_segment(old(acc)@, seg@),
{
    let t = trim_whitespace(seg);
    let tc = chars_of(t);
    if tc.len() == 0 {
        return;
    }
    let ac = chars_of(acc.as_str());
    if ac.len() > 0 {
        if !is_cjk(ac[ac.len() - 1]) && !is_cjk(tc[0]) {
            string_push(acc, ' ');
        }
    }
    acc.append(t);
}

/// Committed windows and the current live partial, for the preview.
pub fn compose(committed: &str, partial: &str) -> (r: String)
    ensures
        r@ == spec_append_segment(committed@, partial@),
{
    let mut s = committed.to_string();
    append_segment(&mut s, partial);
    s
}

/// Samples per second of the streaming engine's input.
pub const STREAM_SR: usize = 16_000;

/// Once a window holds this many samples it rolls at the next pause (25 s).
pub const WINDOW_TARGET_SAMPLES: usize = STREAM_SR * 25;

/// A window always rolls by this many samples (30 s), below the decoder's
/// cache ceiling.
pub const WINDOW_HARD_SAMPLES: usize = STREAM_SR * 30;

/// Whether the open window should roll: it reached the hard ceiling, or the
/// target length at a pause.
pub open spec fn spec_should_roll(samples_in_window: nat, at_pause: bool) -> bool {
    samples_in_window >= WINDOW_HARD_SAMPLES || (samples_in_window >= WINDOW_TARGET_SAMPLES && at_pause)
}

/// Whether the open window should roll.
pub fn should_roll_window(samples_in_window: usize, at_pause: bool) -> (r: bool)
    ensures
        r == spec_should_roll(samples_in_window as nat, at_pause),
{
    samples_in_window >= WINDOW_HARD_SAMPLES || (samples_in_window >= WINDOW_TARGET_SAMPLES && at_pause)
}

/// The rolling-window accumulator of a streaming session: the stitched
/// transcript of finished windows, the samples fed to the open window, and
/// the language hint re-applied to each new window.
pub struct StreamWindow {
    pub committed: String,
    pub samples_in_window: usize,
    pub lang: Option<String>,
}

impl StreamWindow {
    /// A fresh session with nothing committed.
    pub fn new(lang: Option<String>) -> (w: Self)
        ensures
            w.committed@ == Seq::<char>::empty(),
            w.samples_in_window == 0,
            w.lang == lang,
    {
        StreamWindow { committed: String::new(), samples_in_window: 0, lang }
    }

    /// Count `n` more samples into the open window; returns whether the window
    /// must roll now (`at_pause`: the frame was quiet).
    pub fn record_feed(&mut self, n: usize, at_pause: bool) -> (roll: bool)
        requires
            old(self).samples_in_window + n <= usize::MAX,
        ensures
            final(self).samples_in_window == old(self).samples_in_window + n,
            final(self).committed == old(self).committed,
            final(self).lang == old(self).lang,
            roll == spec_should_roll(final(self).samples_in_window as nat, at_pause),
    {
        self.samples_in_window = self.samples_in_window + n;
        should_roll_window(self.samples_in_window, at_pause)
    }

    /// Commit the text of the window that just finished and start counting a
    /// new one; returns the stitched transcript to show.
    pub fn roll(&mut self, finished: &str) -> (shown: String)
        ensures
            final(self).committed@ == spec_append_segment(old(self).committed@, finished@),
            final(self).samples_in_window == 0,
            final(self).lang == old(self).lang,
            shown@ == final(self).committed@,
    {
        append_segment(&mut self.committed, finished);
        self.samples_in_window = 0;
        self.committed.clone()
    }

    /// The preview for a new live partial, if there is one.
    pub fn preview(&self, partial: Option<&str>) -> (r: Option<String>)
        ensures
            match partial {
                Some(p) => r matches Some(s) && s@ == spec_append_segment(self.committed@, p@),
                None => r is None,
            },
    {
        match partial {
            Some(p) => Some(compose(self.committed.as_str(), p)),
            None => None,
        }
    }

    /// The final transcript: the committed windows plus the last window's
    /// tail when it finished cleanly, trimmed.
    pub fn finish(self, tail: Option<&str>) -> (r: String)
        ensures
            r@ == trim_ws(match tail {
                Some(t) => spec_append_segment(self.committed@, trim_ws(t@)),
                None => self.committed@,
            }),
    {
        let mut committed = self.committed;
        match tail {
            Some(t) => append_segment(&mut committed, trim_whitespace(t)),
            None => {},
        }
        trim_whitespace(committed.as_str()).to_string()
    }
}

/// The word-boundary mark of SentencePiece pieces turned into spaces.
pub open spec fn replace_word_marks(s: Seq<char>) -> Seq<char> {
    s.map_values(|c: char| if c == '\u{2581}' { ' ' } else { c })
}

/// Drop leading characters that are not alphanumeric.
pub open spec fn trim_start_non_alnum(s: Seq<char>) -> Seq<char>
    decreases s.len(),
{
    if s.len() > 0 && !is_alnum(s[0]) {
        trim_start_non_alnum(s.drop_first())
    } else {
        s
    }
}

/// The live-preview display text for a frozen head and a live tail of raw
/// pieces: concatenated, word marks turned into spaces, trimmed, leading
/// non-alphanumeric onset symbols dropped, and one dangling trailing sentence
/// mark removed.
pub open spec fn spec_render_preview(committed_raw: Seq<char>, volatile_raw: Seq<char>) -> Seq<char> {
    let t = trim_start_non_alnum(trim_ws(replace_word_marks(committed_raw + volatile_raw)));
    if t.len() > 0 && is_sentence_mark(t.last()) {
        trim_end_ws(t.drop_last())
    } else {
        t
    }
}

/// Build the preview display text from the frozen head and the live tail.
pub fn render_preview(committed_raw: &str, volatile_raw: &str) -> (r: String)
    ensures
        r@ == spec_render_preview(committed_raw@, volatile_raw@),
{
    let mut joined = committed_raw.to_string();
    joined.append(volatile_raw);
    let cs = chars_of(joined.as_str());
    let mut text = String::new();
    let mut i: usize = 0;
    while i < cs.len()
        invariant
            cs@ == joined@,
            i <= cs@.len(),
            text@ == replace_word_marks(cs@.take(i as int)),
        decreases cs@.len() - i,
    {
        let c = cs[i];
        if c == '\u{2581}' {
            string_push(&mut text, ' ');
        } else {
            string_push(&mut text, c);
        }
        proof {
            assert(cs@.take(i + 1) == cs@.take(i as int).push(c));
            assert(replace_word_marks(cs@.take(i + 1)) =~= replace_word_marks(cs@.take(i as int)).push(if c == '\u{2581}' { ' ' } else { c }));
        }
        i = i + 1;
    }
    assert(cs@.take(cs@.len() as int) =~= cs@);
    let trimmed = trim_whitespace(text.as_str());
    let tc = chars_of(trimmed);
    let n = tc.len();
    let mut a: usize = 0;
    assert(trimmed@.subrange(0, n as int) =~= trimmed@);
    while a < n && !char_is_alphanumeric(tc[a])
        invariant
            tc@ == trimmed@,
            n == trimmed@.len(),
            a <= n,
            trim_start_non_alnum(trimmed@) == trim_start_non_alnum(trimmed@.subrange(a as int, n as int)),
        decreases n - a,
    {
        proof {
            let r = trimmed@.subrange(a as int, n as int);
            assert(r.drop_first() == trimmed@.subrange(a + 1, n as int));
        }
        a = a + 1;
    }
    let t = trimmed.substring_char(a, n);
    assert(t@ == trim_start_non_alnum(trimmed@));
    if a < n && sentence_mark(tc[n - 1]) {
        let head = trimmed.substring_char(a, n - 1);
        assert(head@ =~= t@.drop_last());
        trim_whitespace_end(head).to_string()
    } else {
        t.to_string()
    }
}

} // verus!
