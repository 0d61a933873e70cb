//! Proper-noun candidates from arbitrary screen text, for biasing speech
//! recognition: people, brands, libraries, identifiers with digits and
//! mixed-case product names. Deduplicated case-insensitively, in order of
//! first appearance, capped.

use vstd::prelude::*;
use vstd::string::StrSliceExecFns;
use crate::text::{
    byte_len, char_is_lowercase, char_is_uppercase, char_is_whitespace, chars_of, lowercase_of,
    str_byte_len, str_to_lowercase, unicode_lowercase, unicode_uppercase,
    unicode_whitespace, strs, lower_seen, distinct_lower, contains_str, lemma_len_le_byte_len,
};

verus! {

/// Punctuation that splits tokens (besides whitespace). `-` and `_` are not
/// among them, so "GPT-5" and "Foo_Bar" stay whole.
pub open spec fn is_split_punct(c: char) -> bool {
    c == '.' || c == ',' || c == '!' || c == '?' || c == ';' || c == ':' || c == '(' || c == ')'
        || c == '[' || c == ']' || c == '{' || c == '}' || c == '<' || c == '>' || c == '"'
        || c == '\'' || c == '`' || c == '/' || c == '\\' || c == '|' || c == '&' || c == '*'
        || c == '#' || c == '@'
}

/// Punctuation trimmed from both edges of a token: the split punctuation plus
/// `-` and `_`.
pub open spec fn is_edge_punct(c: char) -> bool {
    is_split_punct(c) || c == '-' || c == '_'
}

/// Sentence-terminating punctuation.
pub open spec fn is_sentence_end(c: char) -> bool {
    c == '.' || c == '!' || c == '?'
}

/// A character that separates tokens.
pub open spec fn is_separator(c: char) -> bool {
    unicode_whitespace(c) || is_split_punct(c)
}

/// End (exclusive) of the token that starts at `i`.
pub open spec fn piece_end(s: Seq<char>, i: int) -> int
    decreases s.len() - i,
{
    if 0 <= i < s.len() && !is_separator(s[i]) {
        piece_end(s, i + 1)
    } else {
        i
    }
}

proof fn lemma_piece_end(s: Seq<char>, i: int)
    requires
        0 <= i <= s.len(),
    ensures
        i <= piece_end(s, i) <= s.len(),
        piece_end(s, i) < s.len() ==> is_separator(s[piece_end(s, i)]),
        (i < s.len() && !is_separator(s[i])) ==> piece_end(s, i) > i,
    decreases s.len() - i,
{
    if i < s.len() && !is_separator(s[i]) {
        lemma_piece_end(s, i + 1);
    }
}

/// The tokens of `s` from position `i`, each with whether it begins a
/// sentence. `initial` says whether the next token begins a sentence so far;
/// `after_end` whether the previous character was a sentence terminator in a
/// separator run. A token begins a sentence when it is the first of the text
/// or when its separator run holds a terminator directly followed by
/// whitespace.
pub open spec fn tokens_from(s: Seq<char>, i: int, initial: bool, after_end: bool) -> Seq<(Seq<char>, bool)>
    decreases s.len() - i,
{
    if i < 0 || i >= s.len() {
        Seq::empty()
    } else if is_separator(s[i]) {
        tokens_from(s, i + 1, initial || (after_end && unicode_whitespace(s[i])), is_sentence_end(s[i]))
    } else {
        let e = piece_end(s, i);
        if e <= i || e > s.len() {
            Seq::empty()
        } else {
            seq![(s.subrange(i, e), initial)] + tokens_from(s, e, false, false)
        }
    }
}

/// Drop leading edge punctuation.
pub open spec fn trim_start_edge(s: Seq<char>) -> Seq<char>
    decreases s.len(),
{
    if s.len() > 0 && is_edge_punct(s[0]) {
        trim_start_edge(s.drop_first())
    } else {
        s
    }
}

/// Drop trailing edge punctuation.
pub open spec fn trim_end_edge(s: Seq<char>) -> Seq<char>
    decreases s.len(),
{
    if s.len() > 0 && is_edge_punct(s.last()) {
        trim_end_edge(s.drop_last())
    } else {
        s
    }
}

/// A token with edge punctuation removed from both ends.
pub open spec fn trim_edges(s: Seq<char>) -> Seq<char> {
    trim_end_edge(trim_start_edge(s))
}

/// `c` is one of `0`..`9`.
pub open spec fn is_ascii_digit(c: char) -> bool {
    48 <= (c as u32) <= 57
}

/// Some character of `t` is an ASCII digit.
pub open spec fn has_digit(t: Seq<char>) -> bool {
    exists|k: int| 0 <= k < t.len() && is_ascii_digit(#[trigger] t[k])
}

/// Some character of `t` is lowercase.
pub open spec fn has_lower(t: Seq<char>) -> bool {
    exists|k: int| 0 <= k < t.len() && unicode_lowercase(#[trigger] t[k])
}

/// Some character of `t` is uppercase.
pub open spec fn has_upper(t: Seq<char>) -> bool {
    exists|k: int| 0 <= k < t.len() && unicode_uppercase(#[trigger] t[k])
}

/// Whether a trimmed token `t` is kept: at least two bytes, no `=`, some
/// letter, and one of (a) capitalized and not sentence-initial, (b) mixed case
/// not starting uppercase ("iPhone"), (c) contains a digit. Tokens with no
/// lowercase letter are dropped unless (c) holds.
pub open spec fn is_candidate(t: Seq<char>, sentence_initial: bool) -> bool {
    let lower = has_lower(t);
    let upper = has_upper(t);
    let first_upper = unicode_uppercase(t[0]);
    let rule_c = has_digit(t) && t.len() >= 2;
    let rule_a = first_upper && lower && !sentence_initial;
    let rule_b = upper && lower && !first_upper;
    &&& byte_len(t) >= 2
    &&& !t.contains('=')
    &&& (lower || upper)
    &&& (lower || rule_c)
    &&& (rule_a || rule_b || rule_c)
}


/// Mixed-case names that do not start with a capital (iPhone, vLLM, macOS)
/// are candidates wherever they stand, sentence start included: a token of
/// at least two characters with an uppercase and a lowercase letter, no `=`,
/// and a first character that is not uppercase qualifies in both positions.
pub proof fn law_mixed_case_any_position(t: Seq<char>)
    requires
        t.len() >= 2,
        exists|i: int| 0 <= i < t.len() && unicode_uppercase(#[trigger] t[i]),
        exists|i: int| 0 <= i < t.len() && unicode_lowercase(#[trigger] t[i]),
        !unicode_uppercase(t[0]),
        forall|i: int| 0 <= i < t.len() ==> #[trigger] t[i] != '=',
    ensures
        is_candidate(t, true),
        is_candidate(t, false),
{
    lemma_len_le_byte_len(t);
    assert(!t.contains('='));
}

/// One token considered: its trimmed form is appended when there is room, it
/// qualifies, and no earlier candidate has the same lowercase form.
pub open spec fn consider_step(out: Seq<Seq<char>>, raw: Seq<char>, sentence_initial: bool, max: nat) -> Seq<Seq<char>> {
    let t = trim_edges(raw);
    if out.len() < max && is_candidate(t, sentence_initial) && !lower_seen(out, lowercase_of(t)) {
        out.push(t)
    } else {
        out
    }
}

/// Consider the tokens in order.
pub open spec fn consider_all(toks: Seq<(Seq<char>, bool)>, out: Seq<Seq<char>>, max: nat) -> Seq<Seq<char>>
    decreases toks.len(),
{
    if toks.len() == 0 {
        out
    } else {
        consider_all(toks.drop_first(), consider_step(out, toks[0].0, toks[0].1, max), max)
    }
}

/// The candidates of `text`, at most `max` of them.
pub open spec fn spec_extract(text: Seq<char>, max: nat) -> Seq<Seq<char>> {
    consider_all(tokens_from(text, 0, true, false), Seq::empty(), max)
}



/// Considering more tokens only ever appends to `out`.
proof fn lemma_consider_all_extends(toks: Seq<(Seq<char>, bool)>, out: Seq<Seq<char>>, max: nat)
    ensures
        consider_all(toks, out, max).len() >= out.len(),
        consider_all(toks, out, max).take(out.len() as int) == out,
    decreases toks.len(),
{
    if toks.len() > 0 {
        let next = consider_step(out, toks[0].0, toks[0].1, max);
        lemma_consider_all_extends(toks.drop_first(), next, max);
        let fin = consider_all(toks.drop_first(), next, max);
        assert(next.take(out.len() as int) =~= out);
        assert(fin.take(out.len() as int) =~= fin.take(next.len() as int).take(out.len() as int));
    } else {
        assert(out.take(out.len() as int) =~= out);
    }
}

proof fn lemma_consider_all_cap_prefix(toks: Seq<(Seq<char>, bool)>, out: Seq<Seq<char>>, k: nat, n: nat)
    requires
        out.len() <= k <= n,
    ensures
        ({
            let big = consider_all(toks, out, n);
            consider_all(toks, out, k) == big.take(if k <= big.len() { k as int } else { big.len() as int })
        }),
    decreases toks.len(),
{
    let big = consider_all(toks, out, n);
    if toks.len() == 0 {
        assert(big.take(big.len() as int) =~= big);
    } else if out.len() == k {
        lemma_consider_all_full(toks, out, k);
        lemma_consider_all_extends(toks, out, n);
    } else {
        assert(consider_step(out, toks[0].0, toks[0].1, k) == consider_step(out, toks[0].0, toks[0].1, n));
        lemma_consider_all_cap_prefix(toks.drop_first(), consider_step(out, toks[0].0, toks[0].1, k), k, n);
    }
}

/// A smaller cap gives a prefix: the candidates of `text` capped at `k` are
/// the first `k` (or all) of those capped at a larger `n`.
pub proof fn law_smaller_cap_is_prefix(text: Seq<char>, k: nat, n: nat)
    requires
        k <= n,
    ensures
        ({
            let big = spec_extract(text, n);
            spec_extract(text, k) == big.take(if k <= big.len() { k as int } else { big.len() as int })
        }),
{
    lemma_consider_all_cap_prefix(tokens_from(text, 0, true, false), Seq::empty(), k, n);
}

/// Every entry is a qualifying token (for some sentence position).
pub open spec fn all_qualify(out: Seq<Seq<char>>) -> bool {
    forall|k: int| 0 <= k < out.len() ==> (#[trigger] is_candidate(out[k], false) || is_candidate(out[k], true))
}

proof fn lemma_consider_all_full(toks: Seq<(Seq<char>, bool)>, out: Seq<Seq<char>>, max: nat)
    requires
        out.len() >= max,
    ensures
        consider_all(toks, out, max) == out,
    decreases toks.len(),
{
    if toks.len() > 0 {
        lemma_consider_all_full(toks.drop_first(), out, max);
    }
}

proof fn lemma_consider_all_invariants(toks: Seq<(Seq<char>, bool)>, out: Seq<Seq<char>>, max: nat)
    requires
        out.len() <= max,
        distinct_lower(out),
        all_qualify(out),
    ensures
        consider_all(toks, out, max).len() <= max,
        distinct_lower(consider_all(toks, out, max)),
        all_qualify(consider_all(toks, out, max)),
        consider_all(toks, out, max).len() >= out.len(),
        consider_all(toks, out, max).take(out.len() as int) == out,
    decreases toks.len(),
{
    if toks.len() > 0 {
        let next = consider_step(out, toks[0].0, toks[0].1, max);
        let t = trim_edges(toks[0].0);
        if next != out {
            assert(next == out.push(t));
            assert forall|i: int, j: int| 0 <= i < j < next.len() implies lowercase_of(#[trigger] next[i]) != lowercase_of(#[trigger] next[j]) by {
                if j == out.len() {
                    assert(next[i] == out[i]);
                    if lowercase_of(out[i]) == lowercase_of(t) {
                        assert(lower_seen(out, lowercase_of(t)));
                    }
                } else {
                    assert(next[i] == out[i]);
                    assert(next[j] == out[j]);
                }
            }
            assert forall|k: int| 0 <= k < next.len() implies (#[trigger] is_candidate(next[k], false) || is_candidate(next[k], true)) by {
                if k < out.len() {
                    assert(next[k] == out[k]);
                }
            }
        }
        lemma_consider_all_invariants(toks.drop_first(), next, max);
        let fin = consider_all(toks.drop_first(), next, max);
        assert(fin.take(next.len() as int) == next);
        assert(out.len() <= next.len());
        assert(fin.take(out.len() as int) =~= fin.take(next.len() as int).take(out.len() as int));
        assert(next.take(out.len() as int) =~= out);
    }
}

/// Membership in the split-punctuation table.
fn split_punct(c: char) -> (r: bool)
    ensures
        r == is_split_punct(c),
{
    c == '.' || c == ',' || c == '!' || c == '?' || c == ';' || c == ':' || c == '(' || c == ')'
        || c == '[' || c == ']' || c == '{' || c == '}' || c == '<' || c == '>' || c == '"'
        || c == '\'' || c == '`' || c == '/' || c == '\\' || c == '|' || c == '&' || c == '*'
        || c == '#' || c == '@'
}

/// Membership in the edge-punctuation table.
fn edge_punct(c: char) -> (r: bool)
    ensures
        r == is_edge_punct(c),
{
    split_punct(c) || c == '-' || c == '_'
}

fn separator(c: char) -> (r: bool)
    ensures
        r == is_separator(c),
{
    char_is_whitespace(c) || split_punct(c)
}

/// The token with edge punctuation trimmed from both ends.
fn trim_edge_punct(raw: &str) -> (t: &str)
    ensures
        t@ == trim_edges(raw@),
{
    let cs = chars_of(raw);
    let n = cs.len();
    let mut a: usize = 0;
    assert(raw@.subrange(0, n as int) =~= raw@);
    while a < n && edge_punct(cs[a])
        invariant
            cs@ == raw@,
            n == raw@.len(),
            a <= n,
            trim_start_edge(raw@) == trim_start_edge(raw@.subrange(a as int, n as int)),
        decreases n - a,
    {
        proof {
            let r = raw@.subrange(a as int, n as int);
            assert(r.drop_first() == raw@.subrange(a + 1, n as int));
        }
        a = a + 1;
    }
    let ghost mid = raw@.subrange(a as int, n as int);
    assert(trim_start_edge(raw@) == mid);
    let mut b: usize = n;
    while b > a && edge_punct(cs[b - 1])
        invariant
            cs@ == raw@,
            n == raw@.len(),
            a <= b <= n,
            mid == raw@.subrange(a as int, n as int),
            trim_end_edge(mid) == trim_end_edge(raw@.subrange(a as int, b as int)),
        decreases b - a,
    {
        proof {
            let r = raw@.subrange(a as int, b as int);
            assert(r.drop_last() == raw@.subrange(a as int, b - 1));
            assert(r.last() == raw@[b - 1]);
        }
        b = b - 1;
    }
    proof {
        let r = raw@.subrange(a as int, b as int);
        if r.len() > 0 {
            assert(r.last() == raw@[b - 1]);
        }
    }
    raw.substring_char(a, b)
}

/// Digit, lowercase and uppercase presence in `t`.
fn letter_profile(t: &Vec<char>) -> (r: (bool, bool, bool))
    ensures
        r.0 == has_digit(t@),
        r.1 == has_lower(t@),
        r.2 == has_upper(t@),
{
    let mut digit = false;
    let mut lower = false;
    let mut upper = false;
    let mut i: usize = 0;
    while i < t.len()
        invariant
            i <= t@.len(),
            digit == (exists|k: int| 0 <= k < i && is_ascii_digit(#[trigger] t@[k])),
            lower == (exists|k: int| 0 <= k < i && unicode_lowercase(#[trigger] t@[k])),
            upper == (exists|k: int| 0 <= k < i && unicode_uppercase(#[trigger] t@[k])),
        decreases t@.len() - i,
    {
        let c = t[i];
        let u = c as u32;
        if 48 <= u && u <= 57 {
            digit = true;
        }
        if char_is_lowercase(c) {
            lower = true;
        }
        if char_is_uppercase(c) {
            upper = true;
        }
        i = i + 1;
    }
    (digit, lower, upper)
}

fn contains_char(t: &Vec<char>, x: char) -> (r: bool)
    ensures
        r == t@.contains(x),
{
    let mut i: usize = 0;
    while i < t.len()
        invariant
            i <= t@.len(),
            forall|k: int| 0 <= k < i ==> t@[k] != x,
        decreases t@.len() - i,
    {
        if t[i] == x {
            return true;
        }
        i = i + 1;
    }
    false
}

/// Whether a trimmed token qualifies as a candidate.
fn qualifies(t: &str, is_sentence_initial: bool) -> (r: bool)
    ensures
        r == is_candidate(t@, is_sentence_initial),
{
    if str_byte_len(t) < 2 {
        return false;
    }
    let cs = chars_of(t);
    if contains_char(&cs, '=') {
        return false;
    }
    assert(cs@.len() > 0) by {
        if cs@.len() == 0 {
            assert(t@ =~= Seq::<char>::empty());
            assert(byte_len(t@) == 0) by {
                assert(vstd::utf8::encode_utf8(Seq::<char>::empty()) =~= Seq::<u8>::empty());
            }
        }
    }
    let (digit, lower, upper) = letter_profile(&cs);
    let first_upper = char_is_uppercase(cs[0]);
    if !lower && !upper {
        return false;
    }
    let rule_c = digit && cs.len() >= 2;
    if !lower && !rule_c {
        return false;
    }
    let rule_a = first_upper && lower && !is_sentence_initial;
    let rule_b = upper && lower && !first_upper;
    rule_a || rule_b || rule_c
}

/// Consider one raw token: trim it, test it, and append it to `out` unless an
/// earlier candidate has the same lowercase form. `seen_lower` holds the
/// lowercase forms of `out`, in order.
fn consider(raw: &str, is_sentence_initial: bool, out: &mut Vec<String>, seen_lower: &mut Vec<String>, max: usize)
    requires
        old(seen_lower)@.len() == old(out)@.len(),
        forall|k: int| 0 <= k < old(out)@.len() ==> (#[trigger] old(seen_lower)@[k])@ == lowercase_of(old(out)@[k]@),
    ensures
        strs(final(out)@) == consider_step(strs(old(out)@), raw@, is_sentence_initial, max as nat),
        final(seen_lower)@.len() == final(out)@.len(),
        forall|k: int| 0 <= k < final(out)@.len() ==> (#[trigger] final(seen_lower)@[k])@ == lowercase_of(final(out)@[k]@),
{
    let ghost before = strs(out@);
    if out.len() >= max {
        return;
    }
    let trimmed = trim_edge_punct(raw);
    if !qualifies(trimmed, is_sentence_initial) {
        return;
    }
    let key = str_to_lowercase(trimmed);
    let dup = contains_str(seen_lower, key.as_str());
    proof {
        if dup {
            let k = choose|k: int| 0 <= k < seen_lower@.len() && (#[trigger] seen_lower@[k])@ == key@;
            assert(before[k] == out@[k]@);
            assert(lower_seen(before, lowercase_of(trimmed@)));
        } else {
            if lower_seen(before, lowercase_of(trimmed@)) {
                let k = choose|k: int| 0 <= k < before.len() && lowercase_of(#[trigger] before[k]) == lowercase_of(trimmed@);
                assert(before[k] == out@[k]@);
                assert(seen_lower@[k]@ == key@);
            }
        }
    }
    if dup {
        return;
    }
    seen_lower.push(key);
    out.push(trimmed.to_string());
    proof {
        assert(strs(out@) =~= before.push(trimmed@));
    }
}

/// Extract proper-noun candidates from `text`: split on whitespace and
/// punctuation (not `-` or `_`), trim edge punctuation, keep tokens that
/// qualify (see `is_candidate`; the first token of the text and of each
/// sentence counts as sentence-initial), drop case-insensitive repeats keeping
/// the first spelling, in order of first appearance, at most `max`.
pub fn extract_candidates(text: &str, max: usize) -> (out: Vec<String>)
    ensures
        strs(out@) == spec_extract(text@, max as nat),
        out@.len() <= max,
        distinct_lower(strs(out@)),
        all_qualify(strs(out@)),
{
    proof {
        lemma_consider_all_invariants(tokens_from(text@, 0, true, false), Seq::empty(), max as nat);
    }
    if max == 0 || text.is_empty() {
        proof {
            if max == 0 {
                lemma_consider_all_full(tokens_from(text@, 0, true, false), Seq::empty(), max as nat);
            }
            if text@.len() == 0 {
                assert(tokens_from(text@, 0, true, false) == Seq::<(Seq<char>, bool)>::empty());
            }
        }
        let out: Vec<String> = Vec::new();
        assert(strs(out@) =~= Seq::<Seq<char>>::empty());
        return out;
    }
    let cs = chars_of(text);
    let n = cs.len();
    let mut out: Vec<String> = Vec::new();
    let mut seen: Vec<String> = Vec::new();
    let mut initial = true;
    let mut after_end = false;
    let mut i: usize = 0;
    assert(strs(out@) =~= Seq::<Seq<char>>::empty());
    while i < n
        invariant
            cs@ == text@,
            n == text@.len(),
            i <= n,
            seen@.len() == out@.len(),
            forall|k: int| 0 <= k < out@.len() ==> (#[trigger] seen@[k])@ == lowercase_of(out@[k]@),
            spec_extract(text@, max as nat) == consider_all(tokens_from(text@, i as int, initial, after_end), strs(out@), max as nat),
            spec_extract(text@, max as nat).len() <= max,
            distinct_lower(spec_extract(text@, max as nat)),
            all_qualify(spec_extract(text@, max as nat)),
        decreases n - i,
    {
        let c = cs[i];
        if separator(c) {
            let ws = char_is_whitespace(c);
            initial = initial || (after_end && ws);
            after_end = c == '.' || c == '!' || c == '?';
            i = i + 1;
        } else {
            let mut j = i + 1;
            proof {
                lemma_piece_end(text@, i as int);
            }
            while j < n && !separator(cs[j])
                invariant
                    cs@ == text@,
                    n == text@.len(),
                    i < j <= n,
                    piece_end(text@, i as int) == piece_end(text@, j as int),
                decreases n - j,
            {
                j = j + 1;
            }
            proof {
                lemma_piece_end(text@, j as int);
            }
            let piece = text.substring_char(i, j);
            let ghost toks = tokens_from(text@, i as int, initial, after_end);
            let ghost before = strs(out@);
            proof {
                assert(toks == seq![(text@.subrange(i as int, j as int), initial)] + tokens_from(text@, j as int, false, false));
                assert(toks.drop_first() == tokens_from(text@, j as int, false, false));
            }
            consider(piece, initial, &mut out, &mut seen, max);
            proof {
                assert(consider_all(toks, before, max as nat) == consider_all(toks.drop_first(), strs(out@), max as nat));
            }
            initial = false;
            after_end = false;
            i = j;
            if out.len() >= max {
                proof {
                    lemma_consider_all_full(tokens_from(text@, i as int, false, false), strs(out@), max as nat);
                    assert(strs(out@).len() == out@.len());
                }
                return out;
            }
        }
    }
    proof {
        assert(tokens_from(text@, n as int, initial, after_end) == Seq::<(Seq<char>, bool)>::empty());
        assert(strs(out@).len() == out@.len());
    }
    out
}

} // verus!
