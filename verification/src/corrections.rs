//! Learning single-word corrections from the user's edits of pasted text, and
//! applying the learned dictionary to later transcripts.

use vstd::prelude::*;
use vstd::utf8::encode_utf8;
use vstd::string::StringExecFns;
use crate::text::{
    contains_seq, occurs_at, any_alphabetic, chars_start_with, has_alpha, seq_starts_with, str_eq, byte_len, char_is_alphanumeric, lemma_encode_utf8_add, char_utf8_len, chars_of, chars_of_bounded, lemma_byte_len_take_le,
    lemma_byte_len_take_step, str_byte_len, unicode_alphabetic, unicode_numeric,
};
use vstd::string::StrSliceExecFns;
use crate::state::CorrectionEntry;
use crate::text::string_push;

verus! {

/// A word character for tokenization: alphanumeric or underscore.
pub open spec fn is_word(c: char) -> bool {
    unicode_alphabetic(c) || unicode_numeric(c) || c == '_'
}

/// End (exclusive) of the run of word characters starting at `i`.
pub open spec fn run_end(s: Seq<char>, i: int) -> int
    decreases s.len() - i,
{
    if 0 <= i < s.len() && is_word(s[i]) {
        run_end(s, i + 1)
    } else {
        i
    }
}

/// The word run that starts at `i` ends where the first non-word character
/// after it stands, or at the end of `s`.
pub proof fn lemma_run_end(s: Seq<char>, i: int)
    requires
        0 <= i <= s.len(),
    ensures
        i <= run_end(s, i) <= s.len(),
        forall|k: int| i <= k < run_end(s, i) ==> is_word(#[trigger] s[k]),
        run_end(s, i) < s.len() ==> !is_word(s[run_end(s, i)]),
        (i < s.len() && is_word(s[i])) ==> run_end(s, i) > i,
    decreases s.len() - i,
{
    if i < s.len() && is_word(s[i]) {
        lemma_run_end(s, i + 1);
    }
}

/// The maximal runs of word characters of `s` at or after `i`, as
/// `(start, end)` character ranges in order.
pub open spec fn word_runs_from(s: Seq<char>, i: int) -> Seq<(int, int)>
    decreases s.len() - i,
{
    if i < 0 || i >= s.len() {
        Seq::empty()
    } else if !is_word(s[i]) {
        word_runs_from(s, i + 1)
    } else {
        let e = run_end(s, i);
        if e <= i || e > s.len() {
            Seq::empty()
        } else {
            seq![(i, e)] + word_runs_from(s, e)
        }
    }
}

/// Runs lie inside `s`, are nonempty, and come in increasing order.
pub proof fn lemma_runs_from_ordered(s: Seq<char>, i: int)
    requires
        0 <= i,
    ensures
        forall|k: int|
            0 <= k < word_runs_from(s, i).len() ==> i <= (#[trigger] word_runs_from(s, i)[k]).0
                < word_runs_from(s, i)[k].1 <= s.len(),
        forall|k1: int, k2: int|
            0 <= k1 < k2 < word_runs_from(s, i).len() ==> (#[trigger] word_runs_from(s, i)[k1]).1
                <= (#[trigger] word_runs_from(s, i)[k2]).0,
        forall|k: int|
            0 <= k < word_runs_from(s, i).len() && (#[trigger] word_runs_from(s, i)[k]).1 < s.len()
                ==> !is_word(s[word_runs_from(s, i)[k].1]),
    decreases s.len() - i,
{
    if i < s.len() {
        if !is_word(s[i]) {
            lemma_runs_from_ordered(s, i + 1);
            assert(word_runs_from(s, i) == word_runs_from(s, i + 1));
        } else {
            let e = run_end(s, i);
            lemma_run_end(s, i);
            if e > i && e <= s.len() {
                lemma_runs_from_ordered(s, e);
                let rest = word_runs_from(s, e);
                let all = word_runs_from(s, i);
                assert(all == seq![(i, e)] + rest);
                assert forall|k: int| 0 <= k < all.len() implies i <= (#[trigger] all[k]).0 < all[k].1 <= s.len() by {
                    if k > 0 {
                        assert(all[k] == rest[k - 1]);
                    }
                }
                assert forall|k: int| 0 <= k < all.len() && (#[trigger] all[k]).1 < s.len() implies !is_word(s[all[k].1]) by {
                    if k > 0 {
                        assert(all[k] == rest[k - 1]);
                    }
                }
                assert forall|k1: int, k2: int| 0 <= k1 < k2 < all.len() implies (#[trigger] all[k1]).1 <= (#[trigger] all[k2]).0 by {
                    assert(all[k2] == rest[k2 - 1]);
                    if k1 > 0 {
                        assert(all[k1] == rest[k1 - 1]);
                    }
                }
            }
        }
    }
}

/// Runs of the whole sequence lie inside it and come in increasing order.
pub proof fn lemma_runs_ordered(s: Seq<char>)
    ensures
        forall|k: int| 0 <= k < word_runs(s).len() ==> 0 <= (#[trigger] word_runs(s)[k]).0 < word_runs(s)[k].1 <= s.len(),
        forall|k1: int, k2: int|
            0 <= k1 < k2 < word_runs(s).len() ==> (#[trigger] word_runs(s)[k1]).1 <= (#[trigger] word_runs(s)[k2]).0,
{
    lemma_runs_from_ordered(s, 0);
}

/// Each run of `s` that ends before the end of `s` is followed by a non-word
/// character.
pub proof fn lemma_runs_end_not_word(s: Seq<char>)
    ensures
        forall|k: int|
            0 <= k < word_runs(s).len() && (#[trigger] word_runs(s)[k]).1 < s.len() ==> !is_word(s[word_runs(s)[k].1]),
{
    lemma_runs_from_ordered(s, 0);
}

/// The maximal runs of word characters of `s`.
pub open spec fn word_runs(s: Seq<char>) -> Seq<(int, int)> {
    word_runs_from(s, 0)
}

/// A token of the input: a maximal run of word characters, with its position
/// as a UTF-8 byte offset and as character indices.
#[derive(Debug, Clone)]
pub struct Token<'a> {
    pub text: &'a str,
    pub byte_offset: usize,
    pub char_start: usize,
    pub char_end: usize,
}

/// `c` is a word character (alphanumeric or `_`).
pub fn is_word_char(c: char) -> (r: bool)
    ensures
        r == is_word(c),
{
    char_is_alphanumeric(c) || c == '_'
}

/// Split `s` into its maximal runs of word characters.
pub fn tokenize(s: &str) -> (out: Vec<Token<'_>>)
    ensures
        out@.len() == word_runs(s@).len(),
        forall|k: int|
            0 <= k < out@.len() ==> {
                let r = #[trigger] word_runs(s@)[k];
                &&& out@[k].char_start == r.0
                &&& out@[k].char_end == r.1
                &&& out@[k].text@ == s@.subrange(r.0, r.1)
                &&& out@[k].byte_offset == byte_len(s@.take(r.0))
            },
{
    let cs = chars_of(s);
    let n = cs.len();
    let total = str_byte_len(s);
    let mut out: Vec<Token<'_>> = Vec::new();
    let mut i: usize = 0;
    let mut b: usize = 0;
    let ghost runs = word_runs(s@);
    while i < n
        invariant
            cs@ == s@,
            n == s@.len(),
            total == byte_len(s@),
            i <= n,
            b == byte_len(s@.take(i as int)),
            runs == word_runs(s@),
            runs == out@.map_values(|t: Token| (t.char_start as int, t.char_end as int)) + word_runs_from(s@, i as int),
            forall|k: int|
                0 <= k < out@.len() ==> {
                    &&& (#[trigger] out@[k]).text@ == s@.subrange(out@[k].char_start as int, out@[k].char_end as int)
                    &&& out@[k].byte_offset == byte_len(s@.take(out@[k].char_start as int))
                },
        decreases n - i,
    {
        let c = cs[i];
        proof {
            lemma_byte_len_take_step(s@, i as int);
            lemma_byte_len_take_le(s@, i as int + 1);
        }
        let w = char_utf8_len(c);
        if is_word_char(c) {
            let start = i;
            let bstart = b;
            let mut j = i + 1;
            let mut bj = b + w;
            proof { lemma_run_end(s@, i as int); }
            while j < n && is_word_char(cs[j])
                invariant
                    cs@ == s@,
                    n == s@.len(),
                    total == byte_len(s@),
                    start < j <= n,
                    run_end(s@, start as int) == run_end(s@, j as int),
                    bj == byte_len(s@.take(j as int)),
                decreases n - j,
            {
                proof {
                    lemma_byte_len_take_step(s@, j as int);
                    lemma_byte_len_take_le(s@, j as int + 1);
                }
                let wj = char_utf8_len(cs[j]);
                j = j + 1;
                bj = bj + wj;
            }
            proof { lemma_run_end(s@, j as int); }
            let tok = Token { text: s.substring_char(start, j), byte_offset: bstart, char_start: start, char_end: j };
            let ghost before = out@;
            out.push(tok);
            proof {
                assert(word_runs_from(s@, start as int) == seq![(start as int, j as int)] + word_runs_from(s@, j as int));
                assert(out@.map_values(|t: Token| (t.char_start as int, t.char_end as int))
                    == before.map_values(|t: Token| (t.char_start as int, t.char_end as int)).push((start as int, j as int)));
            }
            i = j;
            b = bj;
        } else {
            i = i + 1;
            b = b + w;
        }
    }
    proof {
        assert(word_runs_from(s@, n as int) == Seq::<(int, int)>::empty());
        assert(runs == out@.map_values(|t: Token| (t.char_start as int, t.char_end as int)));
        assert forall|k: int| 0 <= k < out@.len() implies out@[k].char_start == (#[trigger] runs[k]).0 by {
            assert(runs[k] == out@.map_values(|t: Token| (t.char_start as int, t.char_end as int))[k]);
        }
    }
    out
}


/// The least of three lengths.
pub open spec fn min3(x: nat, y: nat, z: nat) -> nat {
    if x <= y && x <= z {
        x
    } else if y <= z {
        y
    } else {
        z
    }
}

/// Levenshtein edit distance: insertions, deletions and substitutions of
/// single characters at unit cost.
pub open spec fn lev(a: Seq<char>, b: Seq<char>) -> nat
    decreases a.len() + b.len(),
{
    if a.len() == 0 {
        b.len()
    } else if b.len() == 0 {
        a.len()
    } else {
        min3(
            lev(a.drop_last(), b) + 1,
            lev(a, b.drop_last()) + 1,
            lev(a.drop_last(), b.drop_last()) + (if a.last() == b.last() { 0nat } else { 1nat }),
        )
    }
}

/// Edit distance is symmetric.
pub proof fn lemma_lev_symmetric(a: Seq<char>, b: Seq<char>)
    ensures
        lev(a, b) == lev(b, a),
    decreases a.len() + b.len(),
{
    if a.len() > 0 && b.len() > 0 {
        lemma_lev_symmetric(a.drop_last(), b);
        lemma_lev_symmetric(a, b.drop_last());
        lemma_lev_symmetric(a.drop_last(), b.drop_last());
    }
}

/// A sequence is at distance zero from itself.
pub proof fn lemma_lev_self(a: Seq<char>)
    ensures
        lev(a, a) == 0,
    decreases a.len(),
{
    if a.len() > 0 {
        lemma_lev_self(a.drop_last());
    }
}

/// The distance never exceeds the longer length.
pub proof fn lemma_lev_bound(a: Seq<char>, b: Seq<char>)
    ensures
        lev(a, b) <= if a.len() >= b.len() { a.len() } else { b.len() },
    decreases a.len() + b.len(),
{
    if a.len() > 0 && b.len() > 0 {
        lemma_lev_bound(a.drop_last(), b.drop_last());
    }
}

/// Distance zero means equal sequences.
pub proof fn lemma_lev_zero(a: Seq<char>, b: Seq<char>)
    requires
        lev(a, b) == 0,
    ensures
        a == b,
    decreases a.len() + b.len(),
{
    if a.len() > 0 && b.len() > 0 {
        lemma_lev_zero(a.drop_last(), b.drop_last());
        assert(a == a.drop_last().push(a.last()));
        assert(b == b.drop_last().push(b.last()));
    }
}

fn lev_rows(a: &Vec<char>, b: &Vec<char>) -> (d: usize)
    requires
        a@.len() <= isize::MAX,
        b@.len() <= isize::MAX,
        b@.len() <= a@.len(),
    ensures
        d == lev(a@, b@),
{
    let n = a.len();
    let m = b.len();
    let mut prev: Vec<usize> = Vec::new();
    let mut j: usize = 0;
    while j <= m
        invariant
            m == b@.len(),
            m <= isize::MAX,
            j <= m + 1,
            prev@.len() == j,
            forall|k: int| 0 <= k < j ==> prev@[k] == lev(Seq::<char>::empty(), #[trigger] b@.take(k)),
        decreases m + 1 - j,
    {
        proof {
            assert(lev(Seq::<char>::empty(), b@.take(j as int)) == j);
        }
        prev.push(j);
        j = j + 1;
    }
    let mut i: usize = 1;
    while i <= n
        invariant
            n == a@.len(),
            m == b@.len(),
            m <= n,
            n <= isize::MAX,
            1 <= i <= n + 1,
            prev@.len() == m + 1,
            forall|k: int| 0 <= k <= m ==> prev@[k] == lev(#[trigger] a@.take(i - 1), b@.take(k)),
        decreases n + 1 - i,
    {
        let mut curr: Vec<usize> = Vec::new();
        proof {
            assert(lev(a@.take(i as int), Seq::<char>::empty()) == i);
            assert(b@.take(0) == Seq::<char>::empty());
        }
        curr.push(i);
        let mut j: usize = 1;
        while j <= m
            invariant
                n == a@.len(),
                m == b@.len(),
                m <= n,
                n <= isize::MAX,
                1 <= i <= n,
                1 <= j <= m + 1,
                prev@.len() == m + 1,
                curr@.len() == j,
                forall|k: int| 0 <= k <= m ==> prev@[k] == lev(#[trigger] a@.take(i - 1), b@.take(k)),
                forall|k: int| 0 <= k < j ==> curr@[k] == lev(#[trigger] a@.take(i as int), b@.take(k)),
            decreases m + 1 - j,
        {
            let cost: usize = if a[i - 1] == b[j - 1] { 0 } else { 1 };
            proof {
                let ai = a@.take(i as int);
                let bj = b@.take(j as int);
                assert(ai.drop_last() == a@.take(i - 1));
                assert(bj.drop_last() == b@.take(j - 1));
                assert(ai.last() == a@[i - 1]);
                assert(bj.last() == b@[j - 1]);
                lemma_lev_bound(a@.take(i - 1), b@.take(j as int));
                lemma_lev_bound(ai, b@.take(j - 1));
                lemma_lev_bound(a@.take(i - 1), b@.take(j - 1));
            }
            let del = prev[j] + 1;
            let ins = curr[j - 1] + 1;
            let sub = prev[j - 1] + cost;
            let mut best = del;
            if ins < best {
                best = ins;
            }
            if sub < best {
                best = sub;
            }
            curr.push(best);
            j = j + 1;
        }
        prev = curr;
        i = i + 1;
    }
    proof {
        assert(a@.take(n as int) == a@);
        assert(b@.take(m as int) == b@);
    }
    prev[m]
}

/// Levenshtein (edit) distance between two strings, counted in characters.
pub fn levenshtein(a: &str, b: &str) -> (d: usize)
    ensures
        d == lev(a@, b@),
{
    let a_chars = chars_of_bounded(a);
    let b_chars = chars_of_bounded(b);
    if a_chars.len() < b_chars.len() {
        proof {
            lemma_lev_symmetric(a@, b@);
        }
        lev_rows(&b_chars, &a_chars)
    } else {
        lev_rows(&a_chars, &b_chars)
    }
}


/// The texts of the given character ranges of `s`.
pub open spec fn token_texts(s: Seq<char>, runs: Seq<(int, int)>) -> Seq<Seq<char>> {
    runs.map_values(|r: (int, int)| s.subrange(r.0, r.1))
}

/// Length of the longest common prefix of `x` and `y`, counting from `k`, at most `max`.
pub open spec fn common_prefix_len(x: Seq<Seq<char>>, y: Seq<Seq<char>>, k: nat, max: nat) -> nat
    decreases max - k,
{
    if k < max && x[k as int] == y[k as int] {
        common_prefix_len(x, y, k + 1, max)
    } else {
        k
    }
}

/// Length of the longest common suffix of `x` and `y`, counting from `k`, at most `max`.
pub open spec fn common_suffix_len(x: Seq<Seq<char>>, y: Seq<Seq<char>>, k: nat, max: nat) -> nat
    decreases max - k,
{
    if k < max && x[x.len() - 1 - k] == y[y.len() - 1 - k] {
        common_suffix_len(x, y, k + 1, max)
    } else {
        k
    }
}

/// The part of the field that the paste occupies: the field minus the text
/// that was there before, when that text is a nonempty prefix of it.
pub open spec fn edited_region(current: Seq<char>, original: Option<Seq<char>>) -> Seq<char> {
    if original is Some && original->0.len() > 0 && seq_starts_with(current, original->0) {
        current.skip(original->0.len() as int)
    } else {
        current
    }
}

/// Most tokens a diff range may span on either side.
pub const MAX_DIFF_TOKENS: usize = 2;

/// The strict gate: distinct, `from` at least three characters, both sides
/// alphabetic somewhere, and edit distance in `1..=4` (`1..=6` for
/// multi-token ranges).
pub open spec fn gate_ok(from: Seq<char>, to: Seq<char>, multi_token: bool) -> bool {
    &&& from != to
    &&& from.len() >= 3
    &&& has_alpha(from)
    &&& has_alpha(to)
    &&& 1 <= lev(from, to)
    &&& lev(from, to) <= (if multi_token { 6nat } else { 4nat })
}

/// The correction learned from `pasted` and the field's current text:
/// `(from, to, byte offset of from in pasted)`, or none.
pub open spec fn spec_detect(p: Seq<char>, c: Seq<char>, o: Option<Seq<char>>) -> Option<(Seq<char>, Seq<char>, nat)> {
    if p.len() == 0 || c.len() == 0 {
        None
    } else {
        let r = edited_region(c, o);
        let rp = word_runs(p);
        let re = word_runs(r);
        if rp.len() == 0 || re.len() == 0 {
            None
        } else {
            let tp = token_texts(p, rp);
            let te = token_texts(r, re);
            let mx = if rp.len() <= re.len() { rp.len() } else { re.len() };
            let pre = common_prefix_len(tp, te, 0, mx);
            let suf = common_suffix_len(tp, te, 0, (mx - pre) as nat);
            let dp = rp.len() - pre - suf;
            let de = re.len() - pre - suf;
            if dp == 0 || de == 0 || dp > MAX_DIFF_TOKENS || de > MAX_DIFF_TOKENS {
                None
            } else {
                let fs = rp[pre as int].0;
                let fe = rp[rp.len() - 1 - suf].1;
                let ts = re[pre as int].0;
                let te_end = re[re.len() - 1 - suf].1;
                let from = p.subrange(fs, fe);
                let to = r.subrange(ts, te_end);
                if gate_ok(from, to, dp > 1 || de > 1) {
                    Some((from, to, byte_len(p.take(fs))))
                } else {
                    None
                }
            }
        }
    }
}

/// A learnable correction: replace `from` with `to`. `from_offset` is the
/// UTF-8 byte offset of `from` within the pasted text.
#[derive(Debug, Clone, PartialEq, Eq)]
pub struct CorrectionCandidate {
    pub from: String,
    pub to: String,
    pub from_offset: usize,
}

impl CorrectionCandidate {
    /// The candidate as `(from, to, offset)` over plain values.
    pub open spec fn view3(self) -> (Seq<char>, Seq<char>, nat) {
        (self.from@, self.to@, self.from_offset as nat)
    }
}

/// The character view of an optional string slice.
pub open spec fn opt_str_view(o: Option<&str>) -> Option<Seq<char>> {
    match o {
        Some(x) => Some(x@),
        None => None,
    }
}

/// The strict gate on a candidate `(from, to)`.
pub fn passes_gate(from: &str, to: &str, multi_token: bool) -> (r: bool)
    ensures
        r == gate_ok(from@, to@, multi_token),
{
    if str_eq(from, to) {
        return false;
    }
    let fc = chars_of(from);
    if fc.len() < 3 {
        return false;
    }
    if !any_alphabetic(&fc) {
        return false;
    }
    let tc = chars_of(to);
    if !any_alphabetic(&tc) {
        return false;
    }
    let dist = levenshtein(from, to);
    let max_dist: usize = if multi_token { 6 } else { 4 };
    1 <= dist && dist <= max_dist
}

proof fn lemma_token_text(s: Seq<char>, toks: Seq<Token>, runs: Seq<(int, int)>, k: int)
    requires
        toks.len() == runs.len(),
        0 <= k < toks.len(),
        toks[k].text@ == s.subrange(runs[k].0, runs[k].1),
    ensures
        toks[k].text@ == token_texts(s, runs)[k],
{
}

/// Detect a learnable correction between the text that was pasted and the
/// field's current text. `original_field` is the field's text before the paste,
/// if known; when it is a nonempty prefix of the field it is subtracted first.
pub fn detect_correction(
    pasted: &str,
    current_field: &str,
    original_field: Option<&str>,
) -> (res: Option<CorrectionCandidate>)
    ensures
        match res {
            None => spec_detect(pasted@, current_field@, opt_str_view(original_field)) is None,
            Some(c) => spec_detect(pasted@, current_field@, opt_str_view(original_field)) == Some(c.view3()),
        },
{
    let ghost o = opt_str_view(original_field);
    if pasted.is_empty() || current_field.is_empty() {
        return None;
    }
    let cur_chars = chars_of(current_field);
    let edited: &str = match original_field {
        Some(prefix) => {
            let pre_chars = chars_of(prefix);
            if pre_chars.len() > 0 && chars_start_with(&cur_chars, &pre_chars) {
                current_field.substring_char(pre_chars.len(), cur_chars.len())
            } else {
                current_field
            }
        },
        None => current_field,
    };
    assert(edited@ == edited_region(current_field@, o));
    let pasted_tokens = tokenize(pasted);
    let edited_tokens = tokenize(edited);
    if pasted_tokens.len() == 0 || edited_tokens.len() == 0 {
        return None;
    }
    let ghost rp = word_runs(pasted@);
    let ghost re = word_runs(edited@);
    let ghost tp = token_texts(pasted@, rp);
    let ghost te = token_texts(edited@, re);
    let np = pasted_tokens.len();
    let ne = edited_tokens.len();
    let max_common = if np <= ne { np } else { ne };
    let mut prefix_len: usize = 0;
    while prefix_len < max_common && str_eq(pasted_tokens[prefix_len].text, edited_tokens[prefix_len].text)
        invariant
            np == rp.len(),
            ne == re.len(),
            pasted_tokens@.len() == np,
            edited_tokens@.len() == ne,
            max_common == (if rp.len() <= re.len() { rp.len() } else { re.len() }),
            prefix_len <= max_common,
            tp == token_texts(pasted@, rp),
            te == token_texts(edited@, re),
            forall|k: int| 0 <= k < np ==> (#[trigger] pasted_tokens@[k]).text@ == pasted@.subrange(rp[k].0, rp[k].1),
            forall|k: int| 0 <= k < ne ==> (#[trigger] edited_tokens@[k]).text@ == edited@.subrange(re[k].0, re[k].1),
            common_prefix_len(tp, te, 0, max_common as nat) == common_prefix_len(tp, te, prefix_len as nat, max_common as nat),
        decreases max_common - prefix_len,
    {
        proof {
            lemma_token_text(pasted@, pasted_tokens@, rp, prefix_len as int);
            lemma_token_text(edited@, edited_tokens@, re, prefix_len as int);
        }
        prefix_len = prefix_len + 1;
    }
    proof {
        if prefix_len < max_common {
            lemma_token_text(pasted@, pasted_tokens@, rp, prefix_len as int);
            lemma_token_text(edited@, edited_tokens@, re, prefix_len as int);
        }
        assert(common_prefix_len(tp, te, 0, max_common as nat) == prefix_len);
    }
    let remaining = max_common - prefix_len;
    let mut suffix_len: usize = 0;
    while suffix_len < remaining
        && str_eq(pasted_tokens[np - 1 - suffix_len].text, edited_tokens[ne - 1 - suffix_len].text)
        invariant
            np == rp.len(),
            ne == re.len(),
            pasted_tokens@.len() == np,
            edited_tokens@.len() == ne,
            max_common == (if rp.len() <= re.len() { rp.len() } else { re.len() }),
            prefix_len <= max_common,
            remaining == max_common - prefix_len,
            suffix_len <= remaining,
            tp == token_texts(pasted@, rp),
            te == token_texts(edited@, re),
            forall|k: int| 0 <= k < np ==> (#[trigger] pasted_tokens@[k]).text@ == pasted@.subrange(rp[k].0, rp[k].1),
            forall|k: int| 0 <= k < ne ==> (#[trigger] edited_tokens@[k]).text@ == edited@.subrange(re[k].0, re[k].1),
            common_suffix_len(tp, te, 0, remaining as nat) == common_suffix_len(tp, te, suffix_len as nat, remaining as nat),
        decreases remaining - suffix_len,
    {
        proof {
            lemma_token_text(pasted@, pasted_tokens@, rp, np - 1 - suffix_len);
            lemma_token_text(edited@, edited_tokens@, re, ne - 1 - suffix_len);
        }
        suffix_len = suffix_len + 1;
    }
    proof {
        if suffix_len < remaining {
            lemma_token_text(pasted@, pasted_tokens@, rp, np - 1 - suffix_len);
            lemma_token_text(edited@, edited_tokens@, re, ne - 1 - suffix_len);
        }
        assert(common_suffix_len(tp, te, 0, remaining as nat) == suffix_len);
    }
    let pasted_diff_count = np - prefix_len - suffix_len;
    let edited_diff_count = ne - prefix_len - suffix_len;
    if pasted_diff_count == 0 || edited_diff_count == 0 {
        return None;
    }
    if pasted_diff_count > MAX_DIFF_TOKENS || edited_diff_count > MAX_DIFF_TOKENS {
        return None;
    }
    let from_first = &pasted_tokens[prefix_len];
    let from_last = &pasted_tokens[np - 1 - suffix_len];
    let from_start = from_first.char_start;
    let from_end = from_last.char_end;
    proof {
        lemma_runs_ordered(pasted@);
        lemma_runs_ordered(edited@);
    }
    let from = pasted.substring_char(from_start, from_end);
    let to_first = &edited_tokens[prefix_len];
    let to_last = &edited_tokens[ne - 1 - suffix_len];
    let to = edited.substring_char(to_first.char_start, to_last.char_end);
    let is_multi_token = pasted_diff_count > 1 || edited_diff_count > 1;
    if !passes_gate(from, to, is_multi_token) {
        return None;
    }
    Some(CorrectionCandidate { from: from.to_owned(), to: to.to_owned(), from_offset: from_first.byte_offset })
}


/// Identical pasted and current text never yields a correction.
pub proof fn law_identical_text_learns_nothing(p: Seq<char>)
    ensures
        spec_detect(p, p, None) is None,
{
    if p.len() > 0 {
        let rp = word_runs(p);
        if rp.len() > 0 {
            let tp = token_texts(p, rp);
            lemma_common_prefix_self(tp, 0, rp.len());
        }
    }
}

proof fn lemma_common_prefix_bound(x: Seq<Seq<char>>, y: Seq<Seq<char>>, k: nat, max: nat)
    requires
        k <= max,
    ensures
        k <= common_prefix_len(x, y, k, max) <= max,
    decreases max - k,
{
    if k < max && x[k as int] == y[k as int] {
        lemma_common_prefix_bound(x, y, k + 1, max);
    }
}

proof fn lemma_common_suffix_bound(x: Seq<Seq<char>>, y: Seq<Seq<char>>, k: nat, max: nat)
    requires
        k <= max,
    ensures
        k <= common_suffix_len(x, y, k, max) <= max,
    decreases max - k,
{
    if k < max && x[x.len() - 1 - k] == y[y.len() - 1 - k] {
        lemma_common_suffix_bound(x, y, k + 1, max);
    }
}

proof fn lemma_common_prefix_self(x: Seq<Seq<char>>, k: nat, max: nat)
    requires
        k <= max,
    ensures
        common_prefix_len(x, x, k, max) == max,
    decreases max - k,
{
    if k < max {
        lemma_common_prefix_self(x, k + 1, max);
    }
}

/// A detected correction names a piece of the pasted text: its byte offset
/// slices the pasted text's UTF-8 bytes back to exactly `from`. `from` and
/// `to` differ, `from` has at least three characters, and they are within
/// edit distance 1 to 6.
pub proof fn law_detected_offset_slices_to_from(p: Seq<char>, c: Seq<char>, o: Option<Seq<char>>)
    requires
        spec_detect(p, c, o) is Some,
    ensures
        ({
            let (from, to, off) = spec_detect(p, c, o)->0;
            &&& encode_utf8(p).subrange(off as int, (off + byte_len(from)) as int) == encode_utf8(from)
            &&& from != to
            &&& from.len() >= 3
            &&& 1 <= lev(from, to) <= 6
        }),
{
    let r = edited_region(c, o);
    let rp = word_runs(p);
    let re = word_runs(r);
    lemma_runs_ordered(p);
    let tp = token_texts(p, rp);
    let te = token_texts(r, re);
    let mx = if rp.len() <= re.len() { rp.len() } else { re.len() };
    let pre = common_prefix_len(tp, te, 0, mx);
    let suf = common_suffix_len(tp, te, 0, (mx - pre) as nat);
    lemma_common_prefix_bound(tp, te, 0, mx);
    lemma_common_suffix_bound(tp, te, 0, (mx - pre) as nat);
    let fs = rp[pre as int].0;
    let fe = rp[rp.len() - 1 - suf].1;
    let from = p.subrange(fs, fe);
    if pre < rp.len() - 1 - suf {
        assert(rp[pre as int].1 <= rp[rp.len() - 1 - suf].0);
    }
    assert(0 <= fs <= fe <= p.len());
    assert(p =~= p.take(fs) + from + p.skip(fe));
    lemma_encode_utf8_add(p.take(fs), from);
    lemma_encode_utf8_add(p.take(fs) + from, p.skip(fe));
    let a = encode_utf8(p.take(fs));
    let b = encode_utf8(from);
    let d = encode_utf8(p.skip(fe));
    assert(encode_utf8(p) == a + b + d);
    assert((a + b + d).subrange(a.len() as int, (a.len() + b.len()) as int) =~= b);
}

/// Every character of `s` is a word character: `s` is a single word.
pub open spec fn all_word(s: Seq<char>) -> bool {
    forall|k: int| 0 <= k < s.len() ==> is_word(#[trigger] s[k])
}

/// A diff range that spans more than one run of `s` holds a non-word
/// character: the one that ends the first run.
proof fn lemma_multi_run_not_word(s: Seq<char>, a: int, b: int)
    requires
        0 <= a < b < word_runs(s).len(),
    ensures
        !all_word(s.subrange(word_runs(s)[a].0, word_runs(s)[b].1)),
{
    let rs = word_runs(s);
    lemma_runs_ordered(s);
    lemma_runs_end_not_word(s);
    let k0 = rs[a].1;
    assert(rs[a].1 <= rs[b].0);
    assert(k0 < rs[b].1);
    assert(!is_word(s[k0]));
    let sub = s.subrange(rs[a].0, rs[b].1);
    assert(sub[k0 - rs[a].0] == s[k0]);
}

/// A detected correction passes the strict gate on its own text: both sides
/// hold a letter, `to` stands in the field's current text, and when both
/// sides are single words they are within edit distance 4.
pub proof fn law_detected_correction_gate(p: Seq<char>, c: Seq<char>, o: Option<Seq<char>>)
    requires
        spec_detect(p, c, o) is Some,
    ensures
        ({
            let (from, to, off) = spec_detect(p, c, o)->0;
            &&& has_alpha(from)
            &&& has_alpha(to)
            &&& contains_seq(c, to)
            &&& (all_word(from) && all_word(to) ==> lev(from, to) <= 4)
        }),
{
    let r = edited_region(c, o);
    let rp = word_runs(p);
    let re = word_runs(r);
    lemma_runs_ordered(p);
    lemma_runs_ordered(r);
    let tp = token_texts(p, rp);
    let te = token_texts(r, re);
    let mx = if rp.len() <= re.len() { rp.len() } else { re.len() };
    let pre = common_prefix_len(tp, te, 0, mx);
    let suf = common_suffix_len(tp, te, 0, (mx - pre) as nat);
    lemma_common_prefix_bound(tp, te, 0, mx);
    lemma_common_suffix_bound(tp, te, 0, (mx - pre) as nat);
    let dp = rp.len() - pre - suf;
    let de = re.len() - pre - suf;
    let fs = rp[pre as int].0;
    let fe = rp[rp.len() - 1 - suf].1;
    let ts = re[pre as int].0;
    let te_end = re[re.len() - 1 - suf].1;
    let from = p.subrange(fs, fe);
    let to = r.subrange(ts, te_end);
    if pre < re.len() - 1 - suf {
        assert(re[pre as int].1 <= re[re.len() - 1 - suf].0);
    }
    assert(0 <= ts <= te_end <= r.len());
    let n: int = if o is Some && o->0.len() > 0 && seq_starts_with(c, o->0) { o->0.len() as int } else { 0 };
    assert(r =~= c.skip(n));
    assert(c.subrange(n + ts, n + te_end) =~= to);
    assert(occurs_at(c, to, n + ts));
    if dp > 1 {
        lemma_multi_run_not_word(p, pre as int, rp.len() - 1 - suf);
    }
    if de > 1 {
        lemma_multi_run_not_word(r, pre as int, re.len() - 1 - suf);
    }
}

/// A regular expression compiled from `pattern`.
#[verifier::external_type_specification]
#[verifier::external_body]
pub struct ExRegex(regex::Regex);

/// The characters that `regex::escape` prefixes with a backslash.
pub open spec fn is_regex_meta(c: char) -> bool {
    c == '\\' || c == '.' || c == '+' || c == '*' || c == '?' || c == '(' || c == ')' || c == '|'
        || c == '[' || c == ']' || c == '{' || c == '}' || c == '^' || c == '$' || c == '#' || c == '&'
        || c == '-' || c == '~'
}

/// What `regex::escape` returns for `s`: each character of `s` in order, a
/// metacharacter preceded by a backslash.
pub open spec fn regex_escaped(s: Seq<char>) -> Seq<char>
    decreases s.len(),
{
    if s.len() == 0 {
        Seq::empty()
    } else {
        let c = s.last();
        regex_escaped(s.drop_last()) + (if is_regex_meta(c) { seq!['\\', c] } else { seq![c] })
    }
}

/// Whether `regex::Regex::new` accepts `pattern` (valid and within the default size limit).
pub uninterp spec fn regex_compiles(pattern: Seq<char>) -> bool;

/// What `Regex::replace_all` returns: `hay` with every non-overlapping match of
/// `pattern` replaced by `rep` (with `$name` group references expanded).
pub uninterp spec fn regex_replaced_all(pattern: Seq<char>, hay: Seq<char>, rep: Seq<char>) -> Seq<char>;

/// `regex::escape`: claimed to put a backslash before each regex
/// metacharacter of `s` and copy every other character, as its source
/// (`regex_syntax::escape_into`) does.
#[verifier::external_body]
fn regex_escape(s: &str) -> (r: String)
    ensures
        r@ == regex_escaped(s@),
{
    regex::escape(s)
}

/// A compiled word pattern and the source it was compiled from. Built only by
/// `compile_pattern`, so `re` is always the compilation of `pattern`.
pub struct WordPattern {
    pattern: String,
    re: regex::Regex,
}

impl WordPattern {
    /// The pattern text that this compiled expression was built from.
    pub closed spec fn source(self) -> Seq<char> {
        self.pattern@
    }
}

/// `regex::Regex::new`: compiles `pattern`; whether it succeeds is a function
/// of the pattern alone, named `regex_compiles`. The error value is dropped.
#[verifier::external_body]
fn compile_pattern(pattern: String) -> (r: Option<WordPattern>)
    ensures
        r is Some <==> regex_compiles(pattern@),
        r matches Some(w) ==> w.source() == pattern@,
{
    match regex::Regex::new(&pattern) {
        Ok(re) => Some(WordPattern { pattern, re }),
        Err(_) => None,
    }
}

/// `regex::Regex::replace_all`: the result is a function of the pattern source,
/// the haystack and the replacement, named `regex_replaced_all`.
#[verifier::external_body]
fn regex_replace_all(w: &WordPattern, hay: &str, rep: &str) -> (r: String)
    ensures
        r@ == regex_replaced_all(w.source(), hay@, rep@),
{
    w.re.replace_all(hay, rep).into_owned()
}

/// The pattern matching `from` as a whole word: `\b` + escaped `from` + `\b`.
pub open spec fn word_boundary_pattern(from: Seq<char>) -> Seq<char> {
    seq!['\\', 'b'] + regex_escaped(from) + seq!['\\', 'b']
}

/// Insert `x` into `s` (already ordered by decreasing `from` length) after
/// every entry whose `from` is at least as long: keeps equal lengths in order.
pub open spec fn insert_by_len(x: (Seq<char>, Seq<char>), s: Seq<(Seq<char>, Seq<char>)>) -> Seq<(Seq<char>, Seq<char>)>
    decreases s.len(),
{
    if s.len() == 0 {
        seq![x]
    } else if s.last().0.len() >= x.0.len() {
        s.push(x)
    } else {
        insert_by_len(x, s.drop_last()).push(s.last())
    }
}

/// Stable sort by decreasing length of `from`.
pub open spec fn sort_by_len_desc(s: Seq<(Seq<char>, Seq<char>)>) -> Seq<(Seq<char>, Seq<char>)>
    decreases s.len(),
{
    if s.len() == 0 {
        s
    } else {
        insert_by_len(s.last(), sort_by_len_desc(s.drop_last()))
    }
}

/// Apply the entries in order: each nonempty `from` whose word pattern
/// compiles rewrites every whole-word occurrence into `to`.
pub open spec fn apply_entries(text: Seq<char>, es: Seq<(Seq<char>, Seq<char>)>) -> Seq<char>
    decreases es.len(),
{
    if es.len() == 0 {
        text
    } else {
        let prev = apply_entries(text, es.drop_last());
        let e = es.last();
        if e.0.len() == 0 || !regex_compiles(word_boundary_pattern(e.0)) {
            prev
        } else {
            regex_replaced_all(word_boundary_pattern(e.0), prev, e.1)
        }
    }
}

/// The dictionary as `(from, to)` pairs.
pub open spec fn dict_pairs(dict: Seq<CorrectionEntry>) -> Seq<(Seq<char>, Seq<char>)> {
    dict.map_values(|e: CorrectionEntry| e.pair())
}

/// The result of applying a learned dictionary to `text`: entries are applied
/// longest `from` first (stable among equal lengths).
pub open spec fn spec_apply_dictionary(text: Seq<char>, dict: Seq<CorrectionEntry>) -> Seq<char> {
    if dict.len() == 0 || text.len() == 0 {
        text
    } else {
        apply_entries(text, sort_by_len_desc(dict_pairs(dict)))
    }
}

/// The entries are ordered longest `from` first.
pub open spec fn by_len_desc(s: Seq<(Seq<char>, Seq<char>)>) -> bool {
    forall|i: int, j: int| 0 <= i < j < s.len() ==> (#[trigger] s[i]).0.len() >= (#[trigger] s[j]).0.len()
}

proof fn lemma_insert_by_len_sorted(x: (Seq<char>, Seq<char>), s: Seq<(Seq<char>, Seq<char>)>)
    requires
        by_len_desc(s),
    ensures
        by_len_desc(insert_by_len(x, s)),
        insert_by_len(x, s).len() == s.len() + 1,
        insert_by_len(x, s).to_multiset() == s.to_multiset().insert(x),
    decreases s.len(),
{
    broadcast use vstd::seq_lib::group_to_multiset_ensures;
    if s.len() == 0 {
        assert(insert_by_len(x, s) =~= seq![x]);
        assert(seq![x] =~= Seq::<(Seq<char>, Seq<char>)>::empty().push(x));
    } else if s.last().0.len() >= x.0.len() {
        let r = s.push(x);
        assert forall|i: int, j: int| 0 <= i < j < r.len() implies (#[trigger] r[i]).0.len() >= (#[trigger] r[j]).0.len() by {
            if j == r.len() - 1 {
                if i < s.len() - 1 {
                    assert(s[i].0.len() >= s[s.len() - 1].0.len());
                }
            }
        }
    } else {
        let s0 = s.drop_last();
        assert forall|i: int, j: int| 0 <= i < j < s0.len() implies (#[trigger] s0[i]).0.len() >= (#[trigger] s0[j]).0.len() by {
            assert(s0[i] == s[i] && s0[j] == s[j]);
        }
        lemma_insert_by_len_sorted(x, s0);
        let r0 = insert_by_len(x, s0);
        let r = r0.push(s.last());
        assert forall|k: int| 0 <= k < r0.len() implies (#[trigger] r0[k]).0.len() >= s.last().0.len() by {
            assert(r0.to_multiset().count(r0[k]) > 0);
            assert(r0.to_multiset() == s0.to_multiset().insert(x));
            if r0[k] != x {
                assert(s0.to_multiset().count(r0[k]) > 0);
                assert(s0.contains(r0[k]));
                let m = choose|m: int| 0 <= m < s0.len() && s0[m] == r0[k];
                assert(s[m] == s0[m]);
            }
        }
        assert forall|i: int, j: int| 0 <= i < j < r.len() implies (#[trigger] r[i]).0.len() >= (#[trigger] r[j]).0.len() by {
            if j == r.len() - 1 {
                assert(r[i] == r0[i]);
            } else {
                assert(r[i] == r0[i] && r[j] == r0[j]);
            }
        }
        assert(s0.push(s.last()) =~= s);
    }
}

/// The dictionary is applied longest `from` first: the order used is sorted
/// by decreasing length of `from` and holds exactly the dictionary's entries.
pub proof fn law_longest_from_applied_first(entries: Seq<(Seq<char>, Seq<char>)>)
    ensures
        by_len_desc(sort_by_len_desc(entries)),
        sort_by_len_desc(entries).to_multiset() == entries.to_multiset(),
    decreases entries.len(),
{
    broadcast use vstd::seq_lib::group_to_multiset_ensures;
    if entries.len() > 0 {
        law_longest_from_applied_first(entries.drop_last());
        lemma_insert_by_len_sorted(entries.last(), sort_by_len_desc(entries.drop_last()));
        assert(entries.drop_last().push(entries.last()) =~= entries);
    }
}

/// An empty dictionary leaves every transcript as it is.
pub proof fn law_empty_dictionary_keeps_text(text: Seq<char>)
    ensures
        spec_apply_dictionary(text, Seq::empty()) == text,
{
}

/// An entry with an empty `from` changes nothing.
pub proof fn law_empty_from_skipped(text: Seq<char>, es: Seq<(Seq<char>, Seq<char>)>, to: Seq<char>)
    ensures
        apply_entries(text, es.push((Seq::empty(), to))) == apply_entries(text, es),
{
    assert(es.push((Seq::empty(), to)).drop_last() =~= es);
}

proof fn lemma_insert_by_len_split(x: (Seq<char>, Seq<char>), s: Seq<(Seq<char>, Seq<char>)>, pos: int)
    requires
        0 <= pos <= s.len(),
        forall|k: int| pos <= k < s.len() ==> (#[trigger] s[k]).0.len() < x.0.len(),
        pos == 0 || s[pos - 1].0.len() >= x.0.len(),
    ensures
        insert_by_len(x, s) == s.take(pos).push(x) + s.skip(pos),
    decreases s.len(),
{
    if s.len() == 0 {
        assert(s.take(pos).push(x) + s.skip(pos) =~= seq![x]);
    } else if pos == s.len() {
        assert(s.take(pos) == s);
        assert(s.skip(pos) =~= Seq::<(Seq<char>, Seq<char>)>::empty());
        assert(s.push(x) + Seq::<(Seq<char>, Seq<char>)>::empty() == s.push(x));
    } else {
        let s0 = s.drop_last();
        lemma_insert_by_len_split(x, s0, pos);
        assert(s0.take(pos) == s.take(pos));
        assert((s.take(pos).push(x) + s0.skip(pos)).push(s.last()) =~= s.take(pos).push(x) + s.skip(pos));
    }
}

/// Indices of `dict` ordered by decreasing character length of `from`,
/// equal lengths keeping their order.
fn order_by_from_len(dict: &[CorrectionEntry]) -> (order: Vec<usize>)
    ensures
        order@.len() == dict@.len(),
        forall|k: int| 0 <= k < order@.len() ==> (#[trigger] order@[k]) < dict@.len(),
        order@.map_values(|i: usize| dict@[i as int].pair()) == sort_by_len_desc(dict_pairs(dict@)),
{
    let mut order: Vec<usize> = Vec::new();
    let mut lens: Vec<usize> = Vec::new();
    let mut i: usize = 0;
    while i < dict.len()
        invariant
            i <= dict@.len(),
            order@.len() == i,
            lens@.len() == i,
            forall|k: int| 0 <= k < i ==> (#[trigger] order@[k]) < dict@.len(),
            forall|k: int| 0 <= k < i ==> (#[trigger] lens@[k]) == dict@[order@[k] as int].from@.len(),
            order@.map_values(|j: usize| dict@[j as int].pair()) == sort_by_len_desc(dict_pairs(dict@).take(i as int)),
        decreases dict@.len() - i,
    {
        let len_i = chars_of(dict[i].from.as_str()).len();
        let mut pos = order.len();
        while pos > 0 && lens[pos - 1] < len_i
            invariant
                pos <= order@.len(),
                order@.len() == i,
                lens@.len() == i,
                forall|k: int| 0 <= k < i ==> (#[trigger] lens@[k]) == dict@[order@[k] as int].from@.len(),
                forall|k: int| pos <= k < i ==> (#[trigger] lens@[k]) < len_i,
            decreases pos,
        {
            pos = pos - 1;
        }
        let ghost old_view = order@.map_values(|j: usize| dict@[j as int].pair());
        proof {
            let x = dict@[i as int].pair();
            assert(dict_pairs(dict@).take(i + 1) == dict_pairs(dict@).take(i as int).push(x));
            assert(dict_pairs(dict@).take(i + 1).drop_last() == dict_pairs(dict@).take(i as int));
            assert forall|k: int| pos <= k < old_view.len() implies (#[trigger] old_view[k]).0.len() < x.0.len() by {
                assert(lens@[k] < len_i);
            }
            if pos > 0 {
                assert(lens@[pos - 1] >= len_i);
                assert(old_view[pos - 1].0.len() == lens@[pos - 1]);
            }
            lemma_insert_by_len_split(x, old_view, pos as int);
        }
        order.insert(pos, i);
        lens.insert(pos, len_i);
        proof {
            let x = dict@[i as int].pair();
            let new_view = order@.map_values(|j: usize| dict@[j as int].pair());
            assert(new_view =~= old_view.take(pos as int).push(x) + old_view.skip(pos as int));
        }
        i = i + 1;
    }
    proof {
        assert(dict_pairs(dict@).take(dict@.len() as int) == dict_pairs(dict@));
    }
    order
}

/// Apply a learned correction dictionary to a transcript: for each entry,
/// longest `from` first, every whole-word (`\b`-bounded), case-sensitive
/// occurrence of the regex-escaped `from` is replaced with `to`. Entries with
/// an empty `from`, or whose pattern fails to compile, are skipped.
pub fn apply_dictionary(text: &str, dict: &[CorrectionEntry]) -> (out: String)
    ensures
        out@ == spec_apply_dictionary(text@, dict@),
{
    if dict.len() == 0 || text.is_empty() {
        return text.to_owned();
    }
    let order = order_by_from_len(dict);
    let ghost sorted = sort_by_len_desc(dict_pairs(dict@));
    let mut out = text.to_owned();
    let mut k: usize = 0;
    while k < order.len()
        invariant
            order@.len() == dict@.len(),
            forall|m: int| 0 <= m < order@.len() ==> (#[trigger] order@[m]) < dict@.len(),
            order@.map_values(|i: usize| dict@[i as int].pair()) == sorted,
            k <= order@.len(),
            out@ == apply_entries(text@, sorted.take(k as int)),
        decreases order@.len() - k,
    {
        let entry = &dict[order[k]];
        proof {
            assert(sorted.take(k + 1).drop_last() == sorted.take(k as int));
            assert(sorted.take(k + 1).last() == sorted[k as int]);
            assert(sorted[k as int] == entry.pair());
        }
        if !entry.from.as_str().is_empty() {
            let esc = regex_escape(entry.from.as_str());
            let mut pattern = String::new();
            string_push(&mut pattern, '\\');
            string_push(&mut pattern, 'b');
            pattern.append(esc.as_str());
            string_push(&mut pattern, '\\');
            string_push(&mut pattern, 'b');
            proof {
                assert(pattern@ =~= word_boundary_pattern(entry.from@));
            }
            match compile_pattern(pattern) {
                Some(w) => {
                    out = regex_replace_all(&w, out.as_str(), entry.to.as_str());
                },
                None => {},
            }
        }
        k = k + 1;
    }
    proof {
        assert(sorted.take(order@.len() as int) == sorted);
    }
    out
}

} // verus!
