//! Character classification and small string utilities shared by the
//! transcript-processing modules.

use vstd::prelude::*;
use vstd::utf8::*;
use vstd::string::StrSliceExecFns;

verus! {

/// Unicode `Alphabetic` property of a character.
pub uninterp spec fn unicode_alphabetic(c: char) -> bool;

/// Unicode `Numeric` general categories (Nd, Nl, No) of a character.
pub uninterp spec fn unicode_numeric(c: char) -> bool;

/// Unicode `White_Space` property of a character.
pub uninterp spec fn unicode_whitespace(c: char) -> bool;

/// Unicode `Uppercase` property of a character.
pub uninterp spec fn unicode_uppercase(c: char) -> bool;

/// Unicode `Lowercase` property of a character.
pub uninterp spec fn unicode_lowercase(c: char) -> bool;

/// What `str::to_lowercase` returns for `s`: each character replaced by its
/// Unicode lowercase mapping (locale independent).
pub uninterp spec fn lowercase_of(s: Seq<char>) -> Seq<char>;

/// `char::is_alphabetic`: true when `c` has the Unicode `Alphabetic` property.
#[verifier::external_body]
pub(crate) fn char_is_alphabetic(c: char) -> (r: bool)
    ensures
        r == unicode_alphabetic(c),
{
    c.is_alphabetic()
}

/// `char::is_alphanumeric`: std documents it as `is_alphabetic() || is_numeric()`.
#[verifier::external_body]
pub(crate) fn char_is_alphanumeric(c: char) -> (r: bool)
    ensures
        r == (unicode_alphabetic(c) || unicode_numeric(c)),
{
    c.is_alphanumeric()
}

/// `char::is_whitespace`: true when `c` has the Unicode `White_Space` property.
#[verifier::external_body]
pub(crate) fn char_is_whitespace(c: char) -> (r: bool)
    ensures
        r == unicode_whitespace(c),
{
    c.is_whitespace()
}

/// `char::is_uppercase`: true when `c` has the Unicode `Uppercase` property.
#[verifier::external_body]
pub(crate) fn char_is_uppercase(c: char) -> (r: bool)
    ensures
        r == unicode_uppercase(c),
{
    c.is_uppercase()
}

/// `char::is_lowercase`: true when `c` has the Unicode `Lowercase` property.
#[verifier::external_body]
pub(crate) fn char_is_lowercase(c: char) -> (r: bool)
    ensures
        r == unicode_lowercase(c),
{
    c.is_lowercase()
}

/// `str::to_lowercase`: the lowercase mapping of `s`, a function of `s` alone.
#[verifier::external_body]
pub(crate) fn str_to_lowercase(s: &str) -> (r: String)
    ensures
        r@ == lowercase_of(s@),
{
    s.to_lowercase()
}

/// `String::push`: appends one character.
#[verifier::external_body]
pub(crate) fn string_push(s: &mut String, c: char)
    ensures
        final(s)@ == old(s)@.push(c),
{
    s.push(c);
}

/// The characters of `s`, in order.
pub fn chars_of(s: &str) -> (v: Vec<char>)
    ensures
        v@ == s@,
{
    let mut v: Vec<char> = Vec::new();
    for c in it: s.chars()
        invariant
            v@ == it.seq().take(it.index() as int),
            it.seq() == s@,
    {
        v.push(c);
    }
    v
}

/// A `String` holding exactly the characters `cs`.
pub fn string_of(cs: &[char]) -> (s: String)
    ensures
        s@ == cs@,
{
    let mut s = String::new();
    let mut i: usize = 0;
    while i < cs.len()
        invariant
            i <= cs@.len(),
            s@ == cs@.take(i as int),
        decreases cs@.len() - i,
    {
        string_push(&mut s, cs[i]);
        assert(cs@.take(i + 1) == cs@.take(i as int).push(cs@[i as int]));
        i = i + 1;
    }
    assert(cs@.take(cs@.len() as int) == cs@);
    s
}


/// Number of bytes in the UTF-8 encoding of `s`.
pub open spec fn byte_len(s: Seq<char>) -> nat {
    encode_utf8(s).len()
}

/// Encoding a sequence with one more character appends that character's bytes.
pub proof fn lemma_encode_utf8_push(s: Seq<char>, c: char)
    ensures
        encode_utf8(s.push(c)) == encode_utf8(s) + encode_scalar(c as u32),
    decreases s.len(),
{
    if s.len() == 0 {
        assert(s.push(c).drop_first() == Seq::<char>::empty());
        assert(encode_utf8(Seq::<char>::empty()) == Seq::<u8>::empty());
        assert(encode_utf8(s.push(c)) == encode_scalar(c as u32) + Seq::<u8>::empty());
        assert(encode_scalar(c as u32) + Seq::<u8>::empty() == encode_scalar(c as u32));
        assert(encode_utf8(s) == Seq::<u8>::empty());
        assert(Seq::<u8>::empty() + encode_scalar(c as u32) == encode_scalar(c as u32));
    } else {
        lemma_encode_utf8_push(s.drop_first(), c);
        assert(s.push(c).drop_first() == s.drop_first().push(c));
        assert(s.push(c)[0] == s[0]);
    }
}

/// Byte length of a prefix grows by the width of the next character.
pub proof fn lemma_byte_len_take_step(s: Seq<char>, i: int)
    requires
        0 <= i < s.len(),
    ensures
        byte_len(s.take(i + 1)) == byte_len(s.take(i)) + encode_scalar(s[i] as u32).len(),
{
    assert(s.take(i + 1) == s.take(i).push(s[i]));
    lemma_encode_utf8_push(s.take(i), s[i]);
}

/// `char::len_utf8`: the number of bytes of the UTF-8 encoding of `c`.
pub fn char_utf8_len(c: char) -> (n: usize)
    ensures
        n == encode_scalar(c as u32).len(),
        1 <= n <= 4,
{
    let u = c as u32;
    proof {
        char_is_scalar(c);
    }
    if u <= 0x7F {
        1
    } else if u <= 0x7FF {
        2
    } else if u <= 0xFFFF {
        3
    } else {
        4
    }
}


/// Encoding distributes over concatenation.
pub proof fn lemma_encode_utf8_add(a: Seq<char>, b: Seq<char>)
    ensures
        encode_utf8(a + b) == encode_utf8(a) + encode_utf8(b),
    decreases b.len(),
{
    if b.len() == 0 {
        assert(a + b == a);
        assert(encode_utf8(b) == Seq::<u8>::empty());
        assert(encode_utf8(a) + Seq::<u8>::empty() == encode_utf8(a));
    } else {
        let c = b.last();
        let b0 = b.drop_last();
        lemma_encode_utf8_add(a, b0);
        assert(a + b == (a + b0).push(c));
        assert(b == b0.push(c));
        lemma_encode_utf8_push(a + b0, c);
        lemma_encode_utf8_push(b0, c);
        assert(encode_utf8(a) + (encode_utf8(b0) + encode_scalar(c as u32)) == (encode_utf8(a)
            + encode_utf8(b0)) + encode_scalar(c as u32));
    }
}

/// A prefix never encodes to more bytes than the whole sequence.
pub proof fn lemma_byte_len_take_le(s: Seq<char>, i: int)
    requires
        0 <= i <= s.len(),
    ensures
        byte_len(s.take(i)) <= byte_len(s),
{
    assert(s == s.take(i) + s.skip(i));
    lemma_encode_utf8_add(s.take(i), s.skip(i));
}

/// `str::len`: the length of `s` in bytes. A `str` lives in one allocation,
/// and Rust never lets an allocation exceed `isize::MAX` bytes.
#[verifier::external_body]
pub(crate) fn str_byte_len(s: &str) -> (n: usize)
    ensures
        n == byte_len(s@),
        n <= isize::MAX,
{
    s.len()
}


/// Every character takes at least one byte.
pub proof fn lemma_len_le_byte_len(s: Seq<char>)
    ensures
        s.len() <= byte_len(s),
    decreases s.len(),
{
    if s.len() > 0 {
        let s0 = s.drop_last();
        lemma_len_le_byte_len(s0);
        assert(s == s0.push(s.last()));
        lemma_encode_utf8_push(s0, s.last());
    }
}

/// The characters of `s`; there are at most `isize::MAX` of them.
pub fn chars_of_bounded(s: &str) -> (v: Vec<char>)
    ensures
        v@ == s@,
        v@.len() <= isize::MAX,
{
    let n = str_byte_len(s);
    proof {
        lemma_len_le_byte_len(s@);
    }
    chars_of(s)
}


/// String-slice equality.
#[verifier::external_body]
pub(crate) fn str_eq(a: &str, b: &str) -> (r: bool)
    ensures
        r == (a@ == b@),
{
    a == b
}

/// `s` begins with `pre`.
pub open spec fn seq_starts_with(s: Seq<char>, pre: Seq<char>) -> bool {
    pre.len() <= s.len() && s.take(pre.len() as int) == pre
}

/// `s` begins with `pre`.
pub fn chars_start_with(s: &Vec<char>, pre: &Vec<char>) -> (r: bool)
    ensures
        r == seq_starts_with(s@, pre@),
{
    if pre.len() > s.len() {
        return false;
    }
    let mut i: usize = 0;
    while i < pre.len()
        invariant
            pre@.len() <= s@.len(),
            i <= pre@.len(),
            forall|k: int| 0 <= k < i ==> s@[k] == pre@[k],
        decreases pre@.len() - i,
    {
        if s[i] != pre[i] {
            assert(s@.take(pre@.len() as int)[i as int] != pre@[i as int]);
            return false;
        }
        i = i + 1;
    }
    assert(s@.take(pre@.len() as int) =~= pre@);
    true
}

/// `s` contains an alphabetic character.
pub open spec fn has_alpha(s: Seq<char>) -> bool {
    exists|i: int| 0 <= i < s.len() && unicode_alphabetic(#[trigger] s[i])
}

/// Whether some character of `s` is alphabetic.
pub fn any_alphabetic(s: &Vec<char>) -> (r: bool)
    ensures
        r == has_alpha(s@),
{
    let mut i: usize = 0;
    while i < s.len()
        invariant
            i <= s@.len(),
            forall|k: int| 0 <= k < i ==> !unicode_alphabetic(#[trigger] s@[k]),
        decreases s@.len() - i,
    {
        if char_is_alphabetic(s[i]) {
            return true;
        }
        i = i + 1;
    }
    false
}

} // verus!

verus! {

/// Drop leading whitespace.
pub open spec fn trim_start_ws(s: Seq<char>) -> Seq<char>
    decreases s.len(),
{
    if s.len() > 0 && unicode_whitespace(s[0]) {
        trim_start_ws(s.drop_first())
    } else {
        s
    }
}

/// Drop trailing whitespace.
pub open spec fn trim_end_ws(s: Seq<char>) -> Seq<char>
    decreases s.len(),
{
    if s.len() > 0 && unicode_whitespace(s.last()) {
        trim_end_ws(s.drop_last())
    } else {
        s
    }
}

/// `s` without leading and trailing whitespace (`str::trim`).
pub open spec fn trim_ws(s: Seq<char>) -> Seq<char> {
    trim_end_ws(trim_start_ws(s))
}

/// The trimmed text neither starts nor ends with whitespace.
pub proof fn lemma_trim_ws_edges(s: Seq<char>)
    ensures
        trim_ws(s).len() > 0 ==> !unicode_whitespace(trim_ws(s)[0]) && !unicode_whitespace(trim_ws(s).last()),
        trim_ws(s).len() <= s.len(),
{
    lemma_trim_start_ws(s);
    lemma_trim_end_ws(trim_start_ws(s));
}

proof fn lemma_trim_start_ws(s: Seq<char>)
    ensures
        trim_start_ws(s).len() <= s.len(),
        trim_start_ws(s).len() > 0 ==> !unicode_whitespace(trim_start_ws(s)[0]),
        trim_start_ws(s) == s.skip(s.len() - trim_start_ws(s).len()),
    decreases s.len(),
{
    if s.len() > 0 && unicode_whitespace(s[0]) {
        lemma_trim_start_ws(s.drop_first());
        assert(s.drop_first().skip(s.drop_first().len() - trim_start_ws(s).len()) =~= s.skip(s.len() - trim_start_ws(s).len()));
    } else {
        assert(s.skip(0) =~= s);
    }
}

proof fn lemma_trim_end_ws(s: Seq<char>)
    ensures
        trim_end_ws(s).len() <= s.len(),
        trim_end_ws(s).len() > 0 ==> !unicode_whitespace(trim_end_ws(s).last()),
        trim_end_ws(s) == s.take(trim_end_ws(s).len() as int),
        trim_end_ws(s).len() > 0 ==> trim_end_ws(s)[0] == s[0],
    decreases s.len(),
{
    if s.len() > 0 && unicode_whitespace(s.last()) {
        lemma_trim_end_ws(s.drop_last());
        assert(s.drop_last().take(trim_end_ws(s).len() as int) =~= s.take(trim_end_ws(s).len() as int));
    } else {
        assert(s.take(s.len() as int) =~= s);
    }
}

/// `str::trim`: `s` without leading and trailing Unicode whitespace.
pub fn trim_whitespace(s: &str) -> (t: &str)
    ensures
        t@ == trim_ws(s@),
{
    let cs = chars_of(s);
    let n = cs.len();
    let mut a: usize = 0;
    assert(s@.subrange(0, n as int) =~= s@);
    while a < n && char_is_whitespace(cs[a])
        invariant
            cs@ == s@,
            n == s@.len(),
            a <= n,
            trim_start_ws(s@) == trim_start_ws(s@.subrange(a as int, n as int)),
        decreases n - a,
    {
        proof {
            let r = s@.subrange(a as int, n as int);
            assert(r.drop_first() == s@.subrange(a + 1, n as int));
        }
        a = a + 1;
    }
    let ghost mid = s@.subrange(a as int, n as int);
    assert(trim_start_ws(s@) == mid);
    let mut b: usize = n;
    while b > a && char_is_whitespace(cs[b - 1])
        invariant
            cs@ == s@,
            n == s@.len(),
            a <= b <= n,
            mid == s@.subrange(a as int, n as int),
            trim_end_ws(mid) == trim_end_ws(s@.subrange(a as int, b as int)),
        decreases b - a,
    {
        proof {
            let r = s@.subrange(a as int, b as int);
            assert(r.drop_last() == s@.subrange(a as int, b - 1));
            assert(r.last() == s@[b - 1]);
        }
        b = b - 1;
    }
    proof {
        let r = s@.subrange(a as int, b as int);
        if r.len() > 0 {
            assert(r.last() == s@[b - 1]);
        }
    }
    s.substring_char(a, b)
}

/// The character views of a list of strings.
pub open spec fn strs(v: Seq<String>) -> Seq<Seq<char>> {
    v.map_values(|s: String| s@)
}

/// Some entry of `out` has lowercase form `key`.
pub open spec fn lower_seen(out: Seq<Seq<char>>, key: Seq<char>) -> bool {
    exists|k: int| 0 <= k < out.len() && lowercase_of(#[trigger] out[k]) == key
}

/// No two entries share a lowercase form.
pub open spec fn distinct_lower(out: Seq<Seq<char>>) -> bool {
    forall|i: int, j: int|
        0 <= i < j < out.len() ==> lowercase_of(#[trigger] out[i]) != lowercase_of(#[trigger] out[j])
}

/// Whether some entry of `seen` equals `key`.
pub fn contains_str(seen: &Vec<String>, key: &str) -> (r: bool)
    ensures
        r == (exists|k: int| 0 <= k < seen@.len() && (#[trigger] seen@[k])@ == key@),
{
    let mut i: usize = 0;
    while i < seen.len()
        invariant
            i <= seen@.len(),
            forall|k: int| 0 <= k < i ==> (#[trigger] seen@[k])@ != key@,
        decreases seen@.len() - i,
    {
        if str_eq(seen[i].as_str(), key) {
            return true;
        }
        i = i + 1;
    }
    false
}

/// `str::trim_start`: `s` without leading Unicode whitespace.
pub fn trim_whitespace_start(s: &str) -> (t: &str)
    ensures
        t@ == trim_start_ws(s@),
{
    let cs = chars_of(s);
    let n = cs.len();
    let mut a: usize = 0;
    assert(s@.subrange(0, n as int) =~= s@);
    while a < n && char_is_whitespace(cs[a])
        invariant
            cs@ == s@,
            n == s@.len(),
            a <= n,
            trim_start_ws(s@) == trim_start_ws(s@.subrange(a as int, n as int)),
        decreases n - a,
    {
        proof {
            let r = s@.subrange(a as int, n as int);
            assert(r.drop_first() == s@.subrange(a + 1, n as int));
        }
        a = a + 1;
    }
    s.substring_char(a, n)
}

/// `str::trim_end`: `s` without trailing Unicode whitespace.
pub fn trim_whitespace_end(s: &str) -> (t: &str)
    ensures
        t@ == trim_end_ws(s@),
{
    let cs = chars_of(s);
    let n = cs.len();
    let mut b: usize = n;
    assert(s@.subrange(0, n as int) =~= s@);
    while b > 0 && char_is_whitespace(cs[b - 1])
        invariant
            cs@ == s@,
            n == s@.len(),
            b <= n,
            trim_end_ws(s@) == trim_end_ws(s@.subrange(0, b as int)),
        decreases b,
    {
        proof {
            let r = s@.subrange(0, b as int);
            assert(r.drop_last() == s@.subrange(0, b - 1));
            assert(r.last() == s@[b - 1]);
        }
        b = b - 1;
    }
    proof {
        let r = s@.subrange(0, b as int);
        if r.len() > 0 {
            assert(r.last() == s@[b - 1]);
        }
    }
    s.substring_char(0, b)
}

/// `needle` occurs in `hay` at position `i`.
pub open spec fn occurs_at(hay: Seq<char>, needle: Seq<char>, i: int) -> bool {
    0 <= i && i + needle.len() <= hay.len() && hay.subrange(i, i + needle.len()) == needle
}

/// `needle` occurs somewhere in `hay`.
pub open spec fn contains_seq(hay: Seq<char>, needle: Seq<char>) -> bool {
    exists|i: int| occurs_at(hay, needle, i)
}

/// Whether `needle` occurs in `hay` at character index `i`.
pub fn occurs_at_chars(hay: &Vec<char>, needle: &Vec<char>, i: usize) -> (r: bool)
    requires
        i + needle@.len() <= hay@.len(),
        hay@.len() <= isize::MAX,
    ensures
        r == occurs_at(hay@, needle@, i as int),
{
    let mut k: usize = 0;
    while k < needle.len()
        invariant
            i + needle@.len() <= hay@.len(),
            hay@.len() <= isize::MAX,
            k <= needle@.len(),
            forall|m: int| 0 <= m < k ==> hay@[i + m] == needle@[m],
        decreases needle@.len() - k,
    {
        assert(i + k < hay@.len());
        if hay[i + k] != needle[k] {
            assert(hay@.subrange(i as int, i + needle@.len())[k as int] != needle@[k as int]);
            return false;
        }
        k = k + 1;
    }
    assert(hay@.subrange(i as int, i + needle@.len()) =~= needle@);
    true
}

/// `str::contains` for a string needle: whether `needle` occurs in `hay`.
pub fn str_contains(hay: &str, needle: &str) -> (r: bool)
    ensures
        r == contains_seq(hay@, needle@),
{
    let h = chars_of_bounded(hay);
    let nd = chars_of_bounded(needle);
    if nd.len() > h.len() {
        assert forall|i: int| !occurs_at(hay@, needle@, i) by {}
        return false;
    }
    let last = h.len() - nd.len();
    let mut i: usize = 0;
    while i <= last
        invariant
            h@ == hay@,
            nd@ == needle@,
            last == h@.len() - nd@.len(),
            nd@.len() <= h@.len(),
            h@.len() <= isize::MAX,
            i <= last + 1,
            forall|j: int| 0 <= j < i ==> !occurs_at(hay@, needle@, j),
        decreases last + 1 - i,
    {
        if occurs_at_chars(&h, &nd, i) {
            return true;
        }
        i = i + 1;
    }
    assert forall|j: int| !occurs_at(hay@, needle@, j) by {
        if 0 <= j && j + needle@.len() <= hay@.len() {
            assert(j < i);
        }
    }
    false
}

/// First position at or after `i` that holds a non-whitespace character,
/// or `s.len()`.
pub open spec fn skip_ws_from(s: Seq<char>, i: int) -> int
    decreases s.len() - i,
{
    if i < 0 || i >= s.len() {
        s.len() as int
    } else if unicode_whitespace(s[i]) {
        skip_ws_from(s, i + 1)
    } else {
        i
    }
}

/// First position at or after `i` that holds a whitespace character, or
/// `s.len()`.
pub open spec fn word_end_from(s: Seq<char>, i: int) -> int
    decreases s.len() - i,
{
    if i < 0 || i >= s.len() {
        s.len() as int
    } else if unicode_whitespace(s[i]) {
        i
    } else {
        word_end_from(s, i + 1)
    }
}

/// The bounds of the next whitespace-separated word at or after `from`, as
/// `str::split_whitespace` yields it.
pub open spec fn next_word(s: Seq<char>, from: int) -> Option<(int, int)> {
    let a = skip_ws_from(s, from);
    if a >= s.len() {
        None
    } else {
        Some((a, word_end_from(s, a)))
    }
}

/// Find the next whitespace-separated word of `cs` at or after `from`.
pub fn find_word(cs: &[char], from: usize) -> (r: Option<(usize, usize)>)
    requires
        from <= cs@.len(),
    ensures
        match next_word(cs@, from as int) {
            None => r is None,
            Some((a, b)) => r matches Some((x, y)) && x == a && y == b && from <= a < b <= cs@.len(),
        },
{
    let mut a = from;
    while a < cs.len() && char_is_whitespace(cs[a])
        invariant
            from <= a <= cs@.len(),
            skip_ws_from(cs@, from as int) == skip_ws_from(cs@, a as int),
        decreases cs@.len() - a,
    {
        a = a + 1;
    }
    if a >= cs.len() {
        return None;
    }
    let mut b = a + 1;
    while b < cs.len() && !char_is_whitespace(cs[b])
        invariant
            a < b <= cs@.len(),
            word_end_from(cs@, a as int) == word_end_from(cs@, b as int),
        decreases cs@.len() - b,
    {
        b = b + 1;
    }
    Some((a, b))
}

/// Index of the first `sep` in `s` at or after `i`, or `s.len()`.
pub open spec fn next_sep(s: Seq<char>, i: int, sep: char) -> int
    decreases s.len() - i,
{
    if i < 0 || i >= s.len() {
        s.len() as int
    } else if s[i] == sep {
        i
    } else {
        next_sep(s, i + 1, sep)
    }
}

proof fn lemma_next_sep(s: Seq<char>, i: int, sep: char)
    requires
        0 <= i <= s.len(),
    ensures
        i <= next_sep(s, i, sep) <= s.len(),
        next_sep(s, i, sep) < s.len() ==> s[next_sep(s, i, sep)] == sep,
        forall|k: int| i <= k < next_sep(s, i, sep) ==> s[k] != sep,
    decreases s.len() - i,
{
    if i < s.len() && s[i] != sep {
        lemma_next_sep(s, i + 1, sep);
    }
}

/// The pieces of `s` from `i` between occurrences of `sep` (`str::split`
/// with a character): there is always at least one piece.
pub open spec fn split_from(s: Seq<char>, i: int, sep: char) -> Seq<Seq<char>>
    decreases s.len() - i, 1int,
{
    if i < 0 || i > s.len() {
        Seq::empty()
    } else {
        let e = next_sep(s, i, sep);
        if e >= s.len() || e < i {
            seq![s.subrange(i, s.len() as int)]
        } else {
            seq![s.subrange(i, e)] + split_from(s, e + 1, sep)
        }
    }
}

/// `s` split on every `sep`.
pub open spec fn split_on(s: Seq<char>, sep: char) -> Seq<Seq<char>> {
    split_from(s, 0, sep)
}

/// `str::split` with a character separator: the pieces between separators,
/// in order.
pub fn split_char(s: &str, sep: char) -> (out: Vec<&str>)
    ensures
        out@.map_values(|p: &str| p@) == split_on(s@, sep),
{
    let cs = chars_of(s);
    let n = cs.len();
    let mut out: Vec<&str> = Vec::new();
    let mut i: usize = 0;
    assert(out@.map_values(|p: &str| p@) + split_from(s@, 0, sep) =~= split_on(s@, sep));
    loop
        invariant
            cs@ == s@,
            n == s@.len(),
            i <= n,
            out@.map_values(|p: &str| p@) + split_from(s@, i as int, sep) == split_on(s@, sep),
        decreases n - i,
    {
        let mut j = i;
        proof {
            lemma_next_sep(s@, i as int, sep);
        }
        while j < n && cs[j] != sep
            invariant
                cs@ == s@,
                n == s@.len(),
                i <= j <= n,
                next_sep(s@, i as int, sep) == next_sep(s@, j as int, sep),
            decreases n - j,
        {
            j = j + 1;
        }
        let ghost before = out@.map_values(|p: &str| p@);
        out.push(s.substring_char(i, j));
        if j >= n {
            proof {
                assert(split_from(s@, i as int, sep) == seq![s@.subrange(i as int, n as int)]);
                assert(out@.map_values(|p: &str| p@) =~= before.push(s@.subrange(i as int, n as int)));
                assert(before + seq![s@.subrange(i as int, n as int)] =~= before.push(s@.subrange(i as int, n as int)));
            }
            return out;
        }
        proof {
            assert(split_from(s@, i as int, sep) == seq![s@.subrange(i as int, j as int)] + split_from(s@, j + 1, sep));
            assert(out@.map_values(|p: &str| p@) =~= before.push(s@.subrange(i as int, j as int)));
            assert(before.push(s@.subrange(i as int, j as int)) + split_from(s@, j + 1, sep) =~= before + split_from(s@, i as int, sep));
        }
        i = j + 1;
    }
}

/// The first position at or after `i` where `needle` occurs in `hay`.
pub open spec fn find_from(hay: Seq<char>, needle: Seq<char>, i: int) -> Option<int>
    decreases hay.len() + 1 - i,
{
    if i < 0 || i + needle.len() > hay.len() {
        None
    } else if occurs_at(hay, needle, i) {
        Some(i)
    } else {
        find_from(hay, needle, i + 1)
    }
}

/// `find_from` gives the first occurrence at or after `i`, if any.
pub proof fn lemma_find_from(hay: Seq<char>, needle: Seq<char>, i: int)
    requires
        0 <= i,
    ensures
        find_from(hay, needle, i) matches Some(j) ==> i <= j && j + needle.len() <= hay.len() && occurs_at(hay, needle, j),
        forall|k: int| i <= k && (find_from(hay, needle, i) matches Some(j) ==> k < j) ==> !occurs_at(hay, needle, k),
    decreases hay.len() + 1 - i,
{
    if i + needle.len() <= hay.len() && !occurs_at(hay, needle, i) {
        lemma_find_from(hay, needle, i + 1);
        assert forall|k: int| i <= k && (find_from(hay, needle, i) matches Some(j) ==> k < j) implies !occurs_at(hay, needle, k) by {
            if k > i {
                assert(i + 1 <= k);
            }
        }
    }
}

/// `str::find` on character sequences: the first position at or after `from`
/// where `needle` occurs.
pub fn find_chars(hay: &Vec<char>, needle: &Vec<char>, from: usize) -> (r: Option<usize>)
    requires
        hay@.len() <= isize::MAX,
    ensures
        r matches Some(j) ==> find_from(hay@, needle@, from as int) == Some(j as int),
        r is None ==> find_from(hay@, needle@, from as int) is None,
{
    if needle.len() > hay.len() {
        return None;
    }
    let last = hay.len() - needle.len();
    let mut i = from;
    while i <= last
        invariant
            hay@.len() <= isize::MAX,
            needle@.len() <= hay@.len(),
            last == hay@.len() - needle@.len(),
            from <= i,
            find_from(hay@, needle@, from as int) == find_from(hay@, needle@, i as int),
        decreases last + 1 - i,
    {
        if occurs_at_chars(hay, needle, i) {
            return Some(i);
        }
        i = i + 1;
    }
    None
}

/// `s` with every non-overlapping occurrence of `pat` from position `i` on
/// replaced by `rep`, scanning left to right.
pub open spec fn replace_from(s: Seq<char>, pat: Seq<char>, rep: Seq<char>, i: int) -> Seq<char>
    decreases s.len() - i,
{
    if i < 0 || i > s.len() {
        Seq::empty()
    } else {
        match find_from(s, pat, i) {
            None => s.skip(i),
            Some(j) => if j < i || j + pat.len() <= i || j + pat.len() > s.len() {
                s.skip(i)
            } else {
                s.subrange(i, j) + rep + replace_from(s, pat, rep, j + pat.len())
            },
        }
    }
}

/// `str::replace` for a nonempty pattern.
pub open spec fn replace_all(s: Seq<char>, pat: Seq<char>, rep: Seq<char>) -> Seq<char> {
    replace_from(s, pat, rep, 0)
}

/// `str::replace` with a nonempty string pattern.
pub fn replace_str(s: &str, pat: &str, rep: &str) -> (r: String)
    requires
        pat@.len() > 0,
    ensures
        r@ == replace_all(s@, pat@, rep@),
{
    let h = chars_of_bounded(s);
    let p = chars_of(pat);
    let n = h.len();
    let mut out = String::new();
    let mut i: usize = 0;
    while i <= n
        invariant
            h@ == s@,
            p@ == pat@,
            p@.len() > 0,
            n == s@.len(),
            n <= isize::MAX,
            i <= n + 1,
            i <= n ==> out@ + replace_from(s@, pat@, rep@, i as int) == replace_all(s@, pat@, rep@),
            i > n ==> out@ == replace_all(s@, pat@, rep@),
        decreases n + 1 - i,
    {
        proof {
            lemma_find_from(s@, pat@, i as int);
        }
        match find_chars(&h, &p, i) {
            None => {
                let tail = s.substring_char(i, n);
                proof {
                    assert(tail@ =~= s@.skip(i as int));
                }
                out.append(tail);
                i = n + 1;
            },
            Some(j) => {
                let piece = s.substring_char(i, j);
                out.append(piece);
                out.append(rep);
                proof {
                    assert(out@ + replace_from(s@, pat@, rep@, j + p@.len()) =~= (out@.subrange(0, out@.len() - piece@.len() - rep@.len()))
                        + replace_from(s@, pat@, rep@, i as int)) by {
                        let o = out@.subrange(0, out@.len() - piece@.len() - rep@.len());
                        assert(out@ =~= o + piece@ + rep@);
                    }
                }
                i = j + p.len();
            },
        }
    }
    out
}

/// Items joined by `sep`.
pub open spec fn join_sep(items: Seq<Seq<char>>, sep: Seq<char>) -> Seq<char>
    decreases items.len(),
{
    if items.len() == 0 {
        Seq::empty()
    } else if items.len() == 1 {
        items[0]
    } else {
        join_sep(items.drop_last(), sep) + sep + items.last()
    }
}

/// `[String]::join`.
pub fn join_strings(items: &[String], sep: &str) -> (r: String)
    ensures
        r@ == join_sep(strs(items@), sep@),
{
    let mut out = String::new();
    let mut i: usize = 0;
    while i < items.len()
        invariant
            i <= items@.len(),
            out@ == join_sep(strs(items@).take(i as int), sep@),
        decreases items@.len() - i,
    {
        if i > 0 {
            out.append(sep);
        }
        out.append(items[i].as_str());
        proof {
            let t = strs(items@).take(i + 1);
            assert(t.drop_last() =~= strs(items@).take(i as int));
            assert(t.last() == items@[i as int]@);
            if i == 0 {
                assert(strs(items@).take(0) =~= Seq::<Seq<char>>::empty());
                assert(out@ =~= Seq::<char>::empty() + items@[0]@);
            }
        }
        i = i + 1;
    }
    assert(strs(items@).take(items@.len() as int) =~= strs(items@));
    out
}

/// Drop trailing `c` characters.
pub open spec fn trim_end_char(s: Seq<char>, c: char) -> Seq<char>
    decreases s.len(),
{
    if s.len() > 0 && s.last() == c {
        trim_end_char(s.drop_last(), c)
    } else {
        s
    }
}

/// `str::trim_end_matches` with a character.
pub fn trim_end_matches_char(s: &str, c: char) -> (t: &str)
    ensures
        t@ == trim_end_char(s@, c),
{
    let cs = chars_of(s);
    let n = cs.len();
    let mut b: usize = n;
    assert(s@.subrange(0, n as int) =~= s@);
    while b > 0 && cs[b - 1] == c
        invariant
            cs@ == s@,
            n == s@.len(),
            b <= n,
            trim_end_char(s@, c) == trim_end_char(s@.subrange(0, b as int), c),
        decreases b,
    {
        proof {
            let r = s@.subrange(0, b as int);
            assert(r.drop_last() == s@.subrange(0, b - 1));
            assert(r.last() == s@[b - 1]);
        }
        b = b - 1;
    }
    proof {
        let r = s@.subrange(0, b as int);
        if r.len() > 0 {
            assert(r.last() == s@[b - 1]);
        }
    }
    s.substring_char(0, b)
}

} // verus!
