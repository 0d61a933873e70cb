//! Local Whisper transcription: the model catalogue paths and the biasing
//! prompt built from hotwords and screen-context candidates.

use vstd::prelude::*;
use vstd::string::StrSliceExecFns;
use crate::text::{
    byte_len, contains_str, lower_seen, lowercase_of, str_byte_len, str_to_lowercase, strs,
    lemma_len_le_byte_len, lemma_byte_len_take_le, lemma_encode_utf8_add,
};

verus! {

/// The Whisper model used when none is chosen.
pub const DEFAULT_MODEL_ID: &'static str = "ggml-large-v3-turbo-q5_0";

/// Default cap on the biasing prompt, in approximate BPE tokens.
pub const DEFAULT_PROMPT_TOKEN_BUDGET: usize = 150;

/// Whisper rejects input shorter than this many 16 kHz samples (one second).
pub const WHISPER_MIN_SAMPLES_16K: usize = 16_000;

/// A too-short clip is padded with trailing silence to this many samples
/// (1.1 seconds).
pub const WHISPER_PAD_TARGET_16K: usize = 17_600;

/// The sample count handed to Whisper for a 16 kHz clip of `len` samples:
/// a clip under one second is padded to the target, a longer one is left
/// alone.
pub fn whisper_padded_len(len: usize) -> (n: usize)
    ensures
        n == (if len < WHISPER_MIN_SAMPLES_16K { WHISPER_PAD_TARGET_16K } else { len }),
        n >= WHISPER_MIN_SAMPLES_16K,
        n >= len,
{
    if len < WHISPER_MIN_SAMPLES_16K {
        WHISPER_PAD_TARGET_16K
    } else {
        len
    }
}

/// Approximate BPE tokens for `n` bytes: `ceil(n / 3.5)`.
pub open spec fn ceil_tokens(n: nat) -> nat {
    ((2 * n + 6) / 7) as nat
}

/// Approximate BPE token count of `s`: its byte length divided by 3.5,
/// rounded up (Whisper's tokenizer averages about 3.5 characters a token).
pub fn approx_token_count(s: &str) -> (n: usize)
    ensures
        n == ceil_tokens(byte_len(s@)),
        n <= isize::MAX,
{
    let len = str_byte_len(s);
    tokens_for_len(len)
}

fn tokens_for_len(len: usize) -> (n: usize)
    ensures
        n == ceil_tokens(len as nat),
        n <= len,
{
    let q = len / 7;
    let r = len % 7;
    proof {
        assert(len == 7 * q + r);
        assert((2 * (7 * q + r) + 6) / 7 == 2 * q + (2 * r + 6) / 7) by (nonlinear_arith)
            requires
                0 <= r < 7,
                q >= 0,
        {
            assert(2 * (7 * q + r) + 6 == 7 * (2 * q) + (2 * r + 6));
        }
    }
    q * 2 + (r * 2 + 6) / 7
}

/// First occurrences of `items` by lowercase form, appended to `out`.
pub open spec fn dedupe_from(items: Seq<Seq<char>>, out: Seq<Seq<char>>) -> Seq<Seq<char>>
    decreases items.len(),
{
    if items.len() == 0 {
        out
    } else {
        let next = if lower_seen(out, lowercase_of(items[0])) { out } else { out.push(items[0]) };
        dedupe_from(items.drop_first(), next)
    }
}

/// Tokens of the `k`-th name in the prompt: its bytes, plus two for the
/// ", " separator after the first.
pub open spec fn segment_tokens(name: Seq<char>, k: nat) -> nat {
    ceil_tokens(byte_len(name) + (if k == 0 { 0nat } else { 2nat }))
}

/// How many names from position `k` on still fit, with `used` tokens spent.
pub open spec fn fit_from(names: Seq<Seq<char>>, k: nat, used: nat, max: nat) -> nat
    decreases names.len() - k,
{
    if k >= names.len() || used + segment_tokens(names[k as int], k) > max {
        0
    } else {
        1 + fit_from(names, k + 1, used + segment_tokens(names[k as int], k), max)
    }
}

/// Names joined by ", ".
pub open spec fn joined(names: Seq<Seq<char>>) -> Seq<char>
    decreases names.len(),
{
    if names.len() == 0 {
        Seq::empty()
    } else if names.len() == 1 {
        names[0]
    } else {
        joined(names.drop_last()) + ", "@ + names.last()
    }
}

/// The fixed sentence that opens every whisper initial prompt.
pub open spec fn prompt_prefix() -> Seq<char> {
    "The following names may appear in the transcript: "@
}

/// Tokens spent by the prefix and the closing period.
pub open spec fn frame_tokens() -> nat {
    ceil_tokens(byte_len(prompt_prefix())) + ceil_tokens(byte_len("."@))
}

/// The Whisper biasing prompt: a sentence naming the hotwords, then the
/// candidates, each lowercase form once, as many as fit in the budget.
pub open spec fn spec_initial_prompt(hotwords: Seq<Seq<char>>, candidates: Seq<Seq<char>>, max: nat) -> Seq<char> {
    if max == 0 || (hotwords.len() == 0 && candidates.len() == 0) {
        Seq::empty()
    } else {
        let names = dedupe_from(hotwords + candidates, Seq::empty());
        let n = fit_from(names, 0, frame_tokens(), max);
        if n == 0 {
            Seq::empty()
        } else {
            prompt_prefix() + joined(names.take(n as int)) + "."@
        }
    }
}

proof fn lemma_fit_from_bound(names: Seq<Seq<char>>, k: nat, used: nat, max: nat)
    requires
        k <= names.len(),
    ensures
        k + fit_from(names, k, used, max) <= names.len(),
    decreases names.len() - k,
{
    if !(k >= names.len() || used + segment_tokens(names[k as int], k) > max) {
        lemma_fit_from_bound(names, k + 1, used + segment_tokens(names[k as int], k), max);
    }
}

/// With a larger budget at least as many names fit.
proof fn lemma_fit_from_monotone(names: Seq<Seq<char>>, k: nat, used: nat, m1: nat, m2: nat)
    requires
        m1 <= m2,
    ensures
        fit_from(names, k, used, m1) <= fit_from(names, k, used, m2),
    decreases names.len() - k,
{
    if !(k >= names.len() || used + segment_tokens(names[k as int], k) > m1) {
        lemma_fit_from_monotone(names, k + 1, used + segment_tokens(names[k as int], k), m1, m2);
    }
}

/// Joining more names never gives a shorter text.
proof fn lemma_joined_take_monotone(names: Seq<Seq<char>>, n1: nat, n2: nat)
    requires
        n1 <= n2 <= names.len(),
    ensures
        joined(names.take(n1 as int)).len() <= joined(names.take(n2 as int)).len(),
    decreases n2 - n1,
{
    if n1 < n2 {
        lemma_joined_take_monotone(names, n1, (n2 - 1) as nat);
        let t = names.take(n2 as int);
        assert(t.drop_last() =~= names.take(n2 - 1));
    }
}

/// A zero budget gives no prompt.
pub proof fn law_zero_budget_no_prompt(hotwords: Seq<Seq<char>>, candidates: Seq<Seq<char>>)
    ensures
        spec_initial_prompt(hotwords, candidates, 0) == Seq::<char>::empty(),
{
}

/// A larger budget never gives a shorter prompt.
pub proof fn law_prompt_monotone_in_budget(hotwords: Seq<Seq<char>>, candidates: Seq<Seq<char>>, b1: nat, b2: nat)
    requires
        b1 <= b2,
    ensures
        spec_initial_prompt(hotwords, candidates, b1).len() <= spec_initial_prompt(hotwords, candidates, b2).len(),
{
    if b1 > 0 && !(hotwords.len() == 0 && candidates.len() == 0) {
        let names = dedupe_from(hotwords + candidates, Seq::empty());
        lemma_fit_from_monotone(names, 0, frame_tokens(), b1, b2);
        lemma_fit_from_bound(names, 0, frame_tokens(), b2);
        let n1 = fit_from(names, 0, frame_tokens(), b1);
        let n2 = fit_from(names, 0, frame_tokens(), b2);
        if n1 > 0 {
            lemma_joined_take_monotone(names, n1, n2);
        }
    }
}

/// Joining more names extends the text: the shorter join is a prefix.
proof fn lemma_joined_take_prefix(names: Seq<Seq<char>>, n1: nat, n2: nat)
    requires
        n1 <= n2 <= names.len(),
    ensures
        joined(names.take(n1 as int)).len() <= joined(names.take(n2 as int)).len(),
        joined(names.take(n2 as int)).take(joined(names.take(n1 as int)).len() as int) == joined(names.take(n1 as int)),
    decreases n2 - n1,
{
    let j1 = joined(names.take(n1 as int));
    let j2 = joined(names.take(n2 as int));
    if n1 == n2 {
        assert(j2.take(j1.len() as int) =~= j1);
    } else if n1 == 0 {
        assert(names.take(0) =~= Seq::<Seq<char>>::empty());
        assert(j2.take(0) =~= j1);
    } else {
        lemma_joined_take_prefix(names, n1, (n2 - 1) as nat);
        let t = names.take(n2 as int);
        assert(t.drop_last() =~= names.take(n2 - 1));
        let jm = joined(names.take(n2 - 1));
        assert(j2 == jm + ", "@ + t.last());
        assert(j2.take(jm.len() as int) =~= jm);
        assert(j2.take(j1.len() as int) =~= jm.take(j1.len() as int));
    }
}

/// Byte length of a prompt built from `joined` names.
proof fn lemma_prompt_bytes(j: Seq<char>)
    ensures
        byte_len(prompt_prefix() + j + "."@) == byte_len(prompt_prefix()) + byte_len(j) + byte_len("."@),
{
    lemma_encode_utf8_add(prompt_prefix(), j);
    lemma_encode_utf8_add(prompt_prefix() + j, "."@);
}

/// A larger budget never gives a prompt of fewer UTF-8 bytes.
pub proof fn law_prompt_bytes_monotone_in_budget(hotwords: Seq<Seq<char>>, candidates: Seq<Seq<char>>, b1: nat, b2: nat)
    requires
        b1 <= b2,
    ensures
        byte_len(spec_initial_prompt(hotwords, candidates, b1)) <= byte_len(spec_initial_prompt(hotwords, candidates, b2)),
{
    if b1 > 0 && !(hotwords.len() == 0 && candidates.len() == 0) {
        let names = dedupe_from(hotwords + candidates, Seq::empty());
        lemma_fit_from_monotone(names, 0, frame_tokens(), b1, b2);
        lemma_fit_from_bound(names, 0, frame_tokens(), b2);
        let n1 = fit_from(names, 0, frame_tokens(), b1);
        let n2 = fit_from(names, 0, frame_tokens(), b2);
        if n1 > 0 {
            lemma_joined_take_prefix(names, n1, n2);
            let j1 = joined(names.take(n1 as int));
            let j2 = joined(names.take(n2 as int));
            lemma_byte_len_take_le(j2, j1.len() as int);
            lemma_prompt_bytes(j1);
            lemma_prompt_bytes(j2);
        }
    }
}

/// The prompt is empty for a zero budget or no names; otherwise it is empty
/// or the fixed opening sentence, names, and a closing period.
pub proof fn law_prompt_shape(hotwords: Seq<Seq<char>>, candidates: Seq<Seq<char>>, max: nat)
    ensures
        ({
            let r = spec_initial_prompt(hotwords, candidates, max);
            &&& (max == 0 || (hotwords.len() == 0 && candidates.len() == 0)) ==> r.len() == 0
            &&& r.len() == 0 || (r.take(prompt_prefix().len() as int) == prompt_prefix() && r.last() == '.')
        }),
{
    let r = spec_initial_prompt(hotwords, candidates, max);
    if r.len() > 0 {
        let names = dedupe_from(hotwords + candidates, Seq::empty());
        let n = fit_from(names, 0, frame_tokens(), max);
        let j = joined(names.take(n as int));
        assert(r == prompt_prefix() + j + "."@);
        reveal_strlit(".");
        assert(r.last() == '.');
        assert(r.take(prompt_prefix().len() as int) =~= prompt_prefix());
    }
}

fn push_all(out: &mut String, s: &str)
    ensures
        final(out)@ == old(out)@ + s@,
{
    out.append(s);
}

/// Build the Whisper `initial_prompt` with the default token budget.
pub fn format_initial_prompt(hotwords: &[String], candidates: &[String]) -> (p: String)
    ensures
        p@ == spec_initial_prompt(strs(hotwords@), strs(candidates@), DEFAULT_PROMPT_TOKEN_BUDGET as nat),
{
    format_initial_prompt_with_budget(hotwords, candidates, DEFAULT_PROMPT_TOKEN_BUDGET)
}

/// Append to `ordered` each of `items` whose lowercase form is new.
fn dedupe_into<'a>(items: &'a [String], ordered: &mut Vec<&'a str>, seen: &mut Vec<String>)
    requires
        old(seen)@.len() == old(ordered)@.len(),
        forall|k: int| 0 <= k < old(ordered)@.len() ==> (#[trigger] old(seen)@[k])@ == lowercase_of(old(ordered)@[k]@),
    ensures
        final(seen)@.len() == final(ordered)@.len(),
        forall|k: int| 0 <= k < final(ordered)@.len() ==> (#[trigger] final(seen)@[k])@ == lowercase_of(final(ordered)@[k]@),
        final(ordered)@.map_values(|s: &str| s@) == dedupe_from(strs(items@), old(ordered)@.map_values(|s: &str| s@)),
{
    let ghost all = strs(items@);
    let ghost start = ordered@.map_values(|s: &str| s@);
    let mut i: usize = 0;
    assert(all.skip(0) =~= all);
    while i < items.len()
        invariant
            i <= items@.len(),
            all == strs(items@),
            seen@.len() == ordered@.len(),
            forall|k: int| 0 <= k < ordered@.len() ==> (#[trigger] seen@[k])@ == lowercase_of(ordered@[k]@),
            dedupe_from(all, start) == dedupe_from(all.skip(i as int), ordered@.map_values(|s: &str| s@)),
        decreases items@.len() - i,
    {
        let ghost view = ordered@.map_values(|s: &str| s@);
        let ghost rest = all.skip(i as int);
        proof {
            assert(rest[0] == items@[i as int]@);
            assert(rest.drop_first() =~= all.skip(i + 1));
        }
        let h: &str = items[i].as_str();
        let key = str_to_lowercase(h);
        let dup = contains_str(seen, key.as_str());
        proof {
            if dup {
                let k = choose|k: int| 0 <= k < seen@.len() && (#[trigger] seen@[k])@ == key@;
                assert(view[k] == ordered@[k]@);
                assert(lower_seen(view, lowercase_of(h@)));
            } else if lower_seen(view, lowercase_of(h@)) {
                let k = choose|k: int| 0 <= k < view.len() && lowercase_of(#[trigger] view[k]) == lowercase_of(h@);
                assert(view[k] == ordered@[k]@);
                assert(seen@[k]@ == key@);
            }
        }
        if !dup {
            seen.push(key);
            ordered.push(h);
            proof {
                assert(ordered@.map_values(|s: &str| s@) =~= view.push(h@));
            }
        }
        i = i + 1;
    }
    proof {
        assert(all.skip(items@.len() as int) =~= Seq::<Seq<char>>::empty());
    }
}

/// Build the Whisper `initial_prompt` from hotwords and screen candidates under
/// a token budget: "The following names may appear in the transcript: A, B."
/// Hotwords come first; each lowercase form appears once; names are added
/// while the estimated token count stays within `max_prompt_tokens`. A zero
/// budget, no names, or no name that fits gives an empty prompt.
pub fn format_initial_prompt_with_budget(hotwords: &[String], candidates: &[String], max_prompt_tokens: usize) -> (p: String)
    ensures
        p@ == spec_initial_prompt(strs(hotwords@), strs(candidates@), max_prompt_tokens as nat),
{
    if max_prompt_tokens == 0 {
        return String::new();
    }
    if hotwords.len() == 0 && candidates.len() == 0 {
        return String::new();
    }
    let mut ordered: Vec<&str> = Vec::new();
    let mut seen: Vec<String> = Vec::new();
    assert(ordered@.map_values(|s: &str| s@) =~= Seq::<Seq<char>>::empty());
    dedupe_into(hotwords, &mut ordered, &mut seen);
    dedupe_into(candidates, &mut ordered, &mut seen);
    let ghost names = ordered@.map_values(|s: &str| s@);
    proof {
        lemma_dedupe_append(strs(hotwords@), strs(candidates@), Seq::empty());
        assert(strs(hotwords@ + candidates@) =~= strs(hotwords@) + strs(candidates@));
    }
    let prefix = "The following names may appear in the transcript: ";
    let suffix = ".";
    let mut out = prefix.to_string();
    let mut approx_tokens = approx_token_count(prefix) + approx_token_count(suffix);
    let mut added = false;
    let mut k: usize = 0;
    proof {
        lemma_fit_from_bound(names, 0, frame_tokens(), max_prompt_tokens as nat);
    }
    while k < ordered.len()
        invariant
            names == ordered@.map_values(|s: &str| s@),
            k <= ordered@.len(),
            added == (k > 0),
            approx_tokens <= usize::MAX,
            k <= fit_from(names, 0, frame_tokens(), max_prompt_tokens as nat),
            fit_from(names, 0, frame_tokens(), max_prompt_tokens as nat) == k + fit_from(names, k as nat, approx_tokens as nat, max_prompt_tokens as nat),
            out@ == prompt_prefix() + joined(names.take(k as int)),
        ensures
            k == fit_from(names, 0, frame_tokens(), max_prompt_tokens as nat),
            added == (k > 0),
            out@ == prompt_prefix() + joined(names.take(k as int)),
        decreases ordered@.len() - k,
    {
        let tok = ordered[k];
        let tok_len = str_byte_len(tok);
        let segment_len = if added { tok_len + 2 } else { tok_len };
        let seg_tokens = tokens_for_len(segment_len);
        proof {
            assert(names[k as int] == tok@);
        }
        if approx_tokens > max_prompt_tokens || seg_tokens > max_prompt_tokens - approx_tokens {
            proof {
                assert(seg_tokens == segment_tokens(names[k as int], k as nat));
                assert(fit_from(names, k as nat, approx_tokens as nat, max_prompt_tokens as nat) == 0);
            }
            break;
        }
        if added {
            push_all(&mut out, ", ");
        }
        push_all(&mut out, tok);
        proof {
            let t = names.take(k + 1);
            assert(t.drop_last() =~= names.take(k as int));
            assert(t.last() == tok@);
            if k == 0 {
                assert(joined(names.take(0)) =~= Seq::<char>::empty());
                assert(prompt_prefix() + Seq::<char>::empty() =~= prompt_prefix());
            } else {
                assert(prompt_prefix() + joined(names.take(k as int)) + ", "@ + tok@ =~= prompt_prefix() + (joined(names.take(k as int)) + ", "@ + tok@));
            }
        }
        proof {
            assert(seg_tokens == segment_tokens(names[k as int], k as nat));
        }
        approx_tokens = approx_tokens + seg_tokens;
        added = true;
        k = k + 1;
    }
    if !added {
        return String::new();
    }
    push_all(&mut out, suffix);
    out
}

proof fn lemma_dedupe_append(a: Seq<Seq<char>>, b: Seq<Seq<char>>, out: Seq<Seq<char>>)
    ensures
        dedupe_from(a + b, out) == dedupe_from(b, dedupe_from(a, out)),
    decreases a.len(),
{
    if a.len() == 0 {
        assert(a + b =~= b);
    } else {
        assert((a + b)[0] == a[0]);
        assert((a + b).drop_first() =~= a.drop_first() + b);
        let next = if lower_seen(out, lowercase_of(a[0])) { out } else { out.push(a[0]) };
        lemma_dedupe_append(a.drop_first(), b, next);
    }
}

/// Where a model is downloaded from.
pub fn model_url(model_id: &str) -> (u: String)
    ensures
        u@ == "https://huggingface.co/ggerganov/whisper.cpp/resolve/main/"@ + model_id@ + ".bin?download=true"@,
{
    let mut u = "https://huggingface.co/ggerganov/whisper.cpp/resolve/main/".to_string();
    u.append(model_id);
    u.append(".bin?download=true");
    u
}

/// The path `std::path::Path::join` gives for `dir` joined with `name`.
pub uninterp spec fn path_joined(dir: Seq<char>, name: Seq<char>) -> Seq<char>;

/// Calls `std::path::Path::join`. Claimed, as its documentation states: an
/// absolute `name` (one that starts with `/`) replaces `dir`; a relative,
/// nonempty `name` extends a nonempty `dir` that does not end in `/` after a
/// separator. Other cases are left to the name `path_joined`.
#[verifier::external_body]
pub(crate) fn join_path(dir: &str, name: &str) -> (r: String)
    ensures
        r@ == path_joined(dir@, name@),
        name@.len() > 0 && name@[0] == '/' ==> r@ == name@,
        name@.len() > 0 && name@[0] != '/' && dir@.len() > 0 && dir@.last() != '/' ==> r@ == dir@ + "/"@ + name@,
{
    std::path::Path::new(dir).join(name).to_string_lossy().into_owned()
}

/// The file of model `model_id` inside the models directory `models_dir`:
/// the directory joined with `<model_id>.bin`.
pub fn model_path(models_dir: &str, model_id: &str) -> (p: String)
    ensures
        p@ == path_joined(models_dir@, model_id@ + ".bin"@),
{
    let mut name = model_id.to_string();
    name.append(".bin");
    join_path(models_dir, name.as_str())
}

/// A model counts as downloaded when its file exists and is not empty;
/// `file_len` is the file's length when it exists.
pub fn model_exists(file_len: Option<u64>) -> (r: bool)
    ensures
        r == (file_len matches Some(n) && n > 0),
{
    match file_len {
        Some(n) => n > 0,
        None => false,
    }
}

} // verus!
