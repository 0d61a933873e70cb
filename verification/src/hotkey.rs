//! The global hotkey: parsing the configured hotkey and the recording state
//! machine's transitions on modifier changes and key presses. The event tap
//! itself lives with the application; it reports each event here and acts on
//! the signal that comes back.

use vstd::prelude::*;
use crate::state::{RecMode, RecSignal, signal_consistent};
use crate::text::{split_char, split_on, str_eq};

verus! {

/// Key code of Escape.
pub const ESC_KEYCODE: i64 = 53;

/// Key code of Tab.
pub const TAB_KEYCODE: i64 = 48;

/// Left and right shift device flags together.
pub const SHIFT_DEVICE_MASK: u64 = 0x0000_0002 | 0x0000_0004;

/// A modifier released sooner than this after its press is a quick tap.
pub const HOLD_THRESHOLD_MS: u64 = 250;

/// Key code and device flag of a modifier name.
pub open spec fn spec_modifier_lookup(id: Seq<char>) -> Option<(i64, u64)> {
    if id == "left-control"@ { Some((59, 0x0000_0001)) }
    else if id == "right-control"@ { Some((62, 0x0000_2000)) }
    else if id == "left-shift"@ { Some((56, 0x0000_0002)) }
    else if id == "right-shift"@ { Some((60, 0x0000_0004)) }
    else if id == "left-command"@ { Some((55, 0x0000_0008)) }
    else if id == "right-command"@ { Some((54, 0x0000_0010)) }
    else if id == "left-option"@ { Some((58, 0x0000_0020)) }
    else if id == "right-option"@ { Some((61, 0x0000_0040)) }
    else { None }
}

/// The key code and device flag of a modifier name ("right-control", ...).
pub fn modifier_lookup(id: &str) -> (r: Option<(i64, u64)>)
    ensures
        r == spec_modifier_lookup(id@),
{
    if str_eq(id, "left-control") { Some((59, 0x0000_0001)) }
    else if str_eq(id, "right-control") { Some((62, 0x0000_2000)) }
    else if str_eq(id, "left-shift") { Some((56, 0x0000_0002)) }
    else if str_eq(id, "right-shift") { Some((60, 0x0000_0004)) }
    else if str_eq(id, "left-command") { Some((55, 0x0000_0008)) }
    else if str_eq(id, "right-command") { Some((54, 0x0000_0010)) }
    else if str_eq(id, "left-option") { Some((58, 0x0000_0020)) }
    else if str_eq(id, "right-option") { Some((61, 0x0000_0040)) }
    else { None }
}

/// The key code of a one-character key name: a letter or a digit.
pub open spec fn char_key_code(c: char) -> Option<i64> {
    if c == 'a' { Some(0) }
    else if c == 'b' { Some(11) }
    else if c == 'c' { Some(8) }
    else if c == 'd' { Some(2) }
    else if c == 'e' { Some(14) }
    else if c == 'f' { Some(3) }
    else if c == 'g' { Some(5) }
    else if c == 'h' { Some(4) }
    else if c == 'i' { Some(34) }
    else if c == 'j' { Some(38) }
    else if c == 'k' { Some(40) }
    else if c == 'l' { Some(37) }
    else if c == 'm' { Some(46) }
    else if c == 'n' { Some(45) }
    else if c == 'o' { Some(31) }
    else if c == 'p' { Some(35) }
    else if c == 'q' { Some(12) }
    else if c == 'r' { Some(15) }
    else if c == 's' { Some(1) }
    else if c == 't' { Some(17) }
    else if c == 'u' { Some(32) }
    else if c == 'v' { Some(9) }
    else if c == 'w' { Some(13) }
    else if c == 'x' { Some(7) }
    else if c == 'y' { Some(16) }
    else if c == 'z' { Some(6) }
    else if c == '0' { Some(29) }
    else if c == '1' { Some(18) }
    else if c == '2' { Some(19) }
    else if c == '3' { Some(20) }
    else if c == '4' { Some(21) }
    else if c == '5' { Some(23) }
    else if c == '6' { Some(22) }
    else if c == '7' { Some(26) }
    else if c == '8' { Some(28) }
    else if c == '9' { Some(25) }
    else { None }
}

/// The key code of a named key ("space", "arrow-up", "f12", ...).
pub open spec fn named_key_code(id: Seq<char>) -> Option<i64> {
    if id == "space"@ { Some(49) }
    else if id == "enter"@ { Some(36) }
    else if id == "tab"@ { Some(48) }
    else if id == "backquote"@ { Some(50) }
    else if id == "slash"@ { Some(44) }
    else if id == "minus"@ { Some(27) }
    else if id == "equal"@ { Some(24) }
    else if id == "bracket-left"@ { Some(33) }
    else if id == "bracket-right"@ { Some(30) }
    else if id == "semicolon"@ { Some(41) }
    else if id == "quote"@ { Some(39) }
    else if id == "comma"@ { Some(43) }
    else if id == "period"@ { Some(47) }
    else if id == "backslash"@ { Some(42) }
    else if id == "arrow-up"@ { Some(126) }
    else if id == "arrow-down"@ { Some(125) }
    else if id == "arrow-left"@ { Some(123) }
    else if id == "arrow-right"@ { Some(124) }
    else if id == "f1"@ { Some(122) }
    else if id == "f2"@ { Some(120) }
    else if id == "f3"@ { Some(99) }
    else if id == "f4"@ { Some(118) }
    else if id == "f5"@ { Some(96) }
    else if id == "f6"@ { Some(97) }
    else if id == "f7"@ { Some(98) }
    else if id == "f8"@ { Some(100) }
    else if id == "f9"@ { Some(101) }
    else if id == "f10"@ { Some(109) }
    else if id == "f11"@ { Some(103) }
    else if id == "f12"@ { Some(111) }
    else { None }
}

/// Key code of a main-key name: a one-character name is a letter or digit;
/// longer names are the named keys.
pub open spec fn spec_key_lookup(id: Seq<char>) -> Option<i64> {
    if id.len() == 1 { char_key_code(id[0]) } else { named_key_code(id) }
}

/// Main keys map to their macOS virtual key codes (the ANSI layout codes of
/// `kVK_ANSI_*` and the function and arrow keys), and no two key names share
/// a code (`law_key_codes_distinct`), so a hotkey fires on the key it names.
#[verifier::rlimit(100)]
pub proof fn law_key_codes()
    ensures
        spec_key_lookup("a"@) == Some(0i64),
        spec_key_lookup("b"@) == Some(11i64),
        spec_key_lookup("c"@) == Some(8i64),
        spec_key_lookup("d"@) == Some(2i64),
        spec_key_lookup("e"@) == Some(14i64),
        spec_key_lookup("f"@) == Some(3i64),
        spec_key_lookup("g"@) == Some(5i64),
        spec_key_lookup("h"@) == Some(4i64),
        spec_key_lookup("i"@) == Some(34i64),
        spec_key_lookup("j"@) == Some(38i64),
        spec_key_lookup("k"@) == Some(40i64),
        spec_key_lookup("l"@) == Some(37i64),
        spec_key_lookup("m"@) == Some(46i64),
        spec_key_lookup("n"@) == Some(45i64),
        spec_key_lookup("o"@) == Some(31i64),
        spec_key_lookup("p"@) == Some(35i64),
        spec_key_lookup("q"@) == Some(12i64),
        spec_key_lookup("r"@) == Some(15i64),
        spec_key_lookup("s"@) == Some(1i64),
        spec_key_lookup("t"@) == Some(17i64),
        spec_key_lookup("u"@) == Some(32i64),
        spec_key_lookup("v"@) == Some(9i64),
        spec_key_lookup("w"@) == Some(13i64),
        spec_key_lookup("x"@) == Some(7i64),
        spec_key_lookup("y"@) == Some(16i64),
        spec_key_lookup("z"@) == Some(6i64),
        spec_key_lookup("0"@) == Some(29i64),
        spec_key_lookup("1"@) == Some(18i64),
        spec_key_lookup("2"@) == Some(19i64),
        spec_key_lookup("3"@) == Some(20i64),
        spec_key_lookup("4"@) == Some(21i64),
        spec_key_lookup("5"@) == Some(23i64),
        spec_key_lookup("6"@) == Some(22i64),
        spec_key_lookup("7"@) == Some(26i64),
        spec_key_lookup("8"@) == Some(28i64),
        spec_key_lookup("9"@) == Some(25i64),
        spec_key_lookup("space"@) == Some(49i64),
        spec_key_lookup("enter"@) == Some(36i64),
        spec_key_lookup("tab"@) == Some(48i64),
        spec_key_lookup("backquote"@) == Some(50i64),
        spec_key_lookup("slash"@) == Some(44i64),
        spec_key_lookup("minus"@) == Some(27i64),
        spec_key_lookup("equal"@) == Some(24i64),
        spec_key_lookup("bracket-left"@) == Some(33i64),
        spec_key_lookup("bracket-right"@) == Some(30i64),
        spec_key_lookup("semicolon"@) == Some(41i64),
        spec_key_lookup("quote"@) == Some(39i64),
        spec_key_lookup("comma"@) == Some(43i64),
        spec_key_lookup("period"@) == Some(47i64),
        spec_key_lookup("backslash"@) == Some(42i64),
        spec_key_lookup("arrow-up"@) == Some(126i64),
        spec_key_lookup("arrow-down"@) == Some(125i64),
        spec_key_lookup("arrow-left"@) == Some(123i64),
        spec_key_lookup("arrow-right"@) == Some(124i64),
        spec_key_lookup("f1"@) == Some(122i64),
        spec_key_lookup("f2"@) == Some(120i64),
        spec_key_lookup("f3"@) == Some(99i64),
        spec_key_lookup("f4"@) == Some(118i64),
        spec_key_lookup("f5"@) == Some(96i64),
        spec_key_lookup("f6"@) == Some(97i64),
        spec_key_lookup("f7"@) == Some(98i64),
        spec_key_lookup("f8"@) == Some(100i64),
        spec_key_lookup("f9"@) == Some(101i64),
        spec_key_lookup("f10"@) == Some(109i64),
        spec_key_lookup("f11"@) == Some(103i64),
        spec_key_lookup("f12"@) == Some(111i64),
{
    reveal_strlit("a");
    reveal_strlit("b");
    reveal_strlit("c");
    reveal_strlit("d");
    reveal_strlit("e");
    reveal_strlit("f");
    reveal_strlit("g");
    reveal_strlit("h");
    reveal_strlit("i");
    reveal_strlit("j");
    reveal_strlit("k");
    reveal_strlit("l");
    reveal_strlit("m");
    reveal_strlit("n");
    reveal_strlit("o");
    reveal_strlit("p");
    reveal_strlit("q");
    reveal_strlit("r");
    reveal_strlit("s");
    reveal_strlit("t");
    reveal_strlit("u");
    reveal_strlit("v");
    reveal_strlit("w");
    reveal_strlit("x");
    reveal_strlit("y");
    reveal_strlit("z");
    reveal_strlit("0");
    reveal_strlit("1");
    reveal_strlit("2");
    reveal_strlit("3");
    reveal_strlit("4");
    reveal_strlit("5");
    reveal_strlit("6");
    reveal_strlit("7");
    reveal_strlit("8");
    reveal_strlit("9");
    reveal_strlit("space");
    reveal_strlit("enter");
    reveal_strlit("tab");
    reveal_strlit("backquote");
    reveal_strlit("slash");
    reveal_strlit("minus");
    reveal_strlit("equal");
    reveal_strlit("bracket-left");
    reveal_strlit("bracket-right");
    reveal_strlit("semicolon");
    reveal_strlit("quote");
    reveal_strlit("comma");
    reveal_strlit("period");
    reveal_strlit("backslash");
    reveal_strlit("arrow-up");
    reveal_strlit("arrow-down");
    reveal_strlit("arrow-left");
    reveal_strlit("arrow-right");
    reveal_strlit("f1");
    reveal_strlit("f2");
    reveal_strlit("f3");
    reveal_strlit("f4");
    reveal_strlit("f5");
    reveal_strlit("f6");
    reveal_strlit("f7");
    reveal_strlit("f8");
    reveal_strlit("f9");
    reveal_strlit("f10");
    reveal_strlit("f11");
    reveal_strlit("f12");
    assert("enter"@[0] != "space"@[0]);
    assert("slash"@[1] != "space"@[1]);
    assert("slash"@[0] != "enter"@[0]);
    assert("minus"@[0] != "space"@[0]);
    assert("minus"@[0] != "enter"@[0]);
    assert("minus"@[0] != "slash"@[0]);
    assert("equal"@[0] != "space"@[0]);
    assert("equal"@[1] != "enter"@[1]);
    assert("equal"@[0] != "slash"@[0]);
    assert("equal"@[0] != "minus"@[0]);
    assert("semicolon"@[0] != "backquote"@[0]);
    assert("quote"@[0] != "space"@[0]);
    assert("quote"@[0] != "enter"@[0]);
    assert("quote"@[0] != "slash"@[0]);
    assert("quote"@[0] != "minus"@[0]);
    assert("quote"@[0] != "equal"@[0]);
    assert("comma"@[0] != "space"@[0]);
    assert("comma"@[0] != "enter"@[0]);
    assert("comma"@[0] != "slash"@[0]);
    assert("comma"@[0] != "minus"@[0]);
    assert("comma"@[0] != "equal"@[0]);
    assert("comma"@[0] != "quote"@[0]);
    assert("backslash"@[4] != "backquote"@[4]);
    assert("backslash"@[0] != "semicolon"@[0]);
    assert("arrow-left"@[6] != "arrow-down"@[6]);
    assert("f2"@[1] != "f1"@[1]);
    assert("f3"@[1] != "f1"@[1]);
    assert("f3"@[1] != "f2"@[1]);
    assert("f4"@[1] != "f1"@[1]);
    assert("f4"@[1] != "f2"@[1]);
    assert("f4"@[1] != "f3"@[1]);
    assert("f5"@[1] != "f1"@[1]);
    assert("f5"@[1] != "f2"@[1]);
    assert("f5"@[1] != "f3"@[1]);
    assert("f5"@[1] != "f4"@[1]);
    assert("f6"@[1] != "f1"@[1]);
    assert("f6"@[1] != "f2"@[1]);
    assert("f6"@[1] != "f3"@[1]);
    assert("f6"@[1] != "f4"@[1]);
    assert("f6"@[1] != "f5"@[1]);
    assert("f7"@[1] != "f1"@[1]);
    assert("f7"@[1] != "f2"@[1]);
    assert("f7"@[1] != "f3"@[1]);
    assert("f7"@[1] != "f4"@[1]);
    assert("f7"@[1] != "f5"@[1]);
    assert("f7"@[1] != "f6"@[1]);
    assert("f8"@[1] != "f1"@[1]);
    assert("f8"@[1] != "f2"@[1]);
    assert("f8"@[1] != "f3"@[1]);
    assert("f8"@[1] != "f4"@[1]);
    assert("f8"@[1] != "f5"@[1]);
    assert("f8"@[1] != "f6"@[1]);
    assert("f8"@[1] != "f7"@[1]);
    assert("f9"@[1] != "f1"@[1]);
    assert("f9"@[1] != "f2"@[1]);
    assert("f9"@[1] != "f3"@[1]);
    assert("f9"@[1] != "f4"@[1]);
    assert("f9"@[1] != "f5"@[1]);
    assert("f9"@[1] != "f6"@[1]);
    assert("f9"@[1] != "f7"@[1]);
    assert("f9"@[1] != "f8"@[1]);
    assert("f10"@[0] != "tab"@[0]);
    assert("f11"@[0] != "tab"@[0]);
    assert("f11"@[2] != "f10"@[2]);
    assert("f12"@[0] != "tab"@[0]);
    assert("f12"@[2] != "f10"@[2]);
    assert("f12"@[2] != "f11"@[2]);
}

/// No two key names share a key code.
pub proof fn law_key_codes_distinct(a: Seq<char>, b: Seq<char>)
    requires
        spec_key_lookup(a) is Some,
        spec_key_lookup(a) == spec_key_lookup(b),
    ensures
        a == b,
{
}

/// The key code of a one-character key name.
fn char_key(c: char) -> (r: Option<i64>)
    ensures
        r == char_key_code(c),
{
    if c == 'a' { Some(0) }
    else if c == 'b' { Some(11) }
    else if c == 'c' { Some(8) }
    else if c == 'd' { Some(2) }
    else if c == 'e' { Some(14) }
    else if c == 'f' { Some(3) }
    else if c == 'g' { Some(5) }
    else if c == 'h' { Some(4) }
    else if c == 'i' { Some(34) }
    else if c == 'j' { Some(38) }
    else if c == 'k' { Some(40) }
    else if c == 'l' { Some(37) }
    else if c == 'm' { Some(46) }
    else if c == 'n' { Some(45) }
    else if c == 'o' { Some(31) }
    else if c == 'p' { Some(35) }
    else if c == 'q' { Some(12) }
    else if c == 'r' { Some(15) }
    else if c == 's' { Some(1) }
    else if c == 't' { Some(17) }
    else if c == 'u' { Some(32) }
    else if c == 'v' { Some(9) }
    else if c == 'w' { Some(13) }
    else if c == 'x' { Some(7) }
    else if c == 'y' { Some(16) }
    else if c == 'z' { Some(6) }
    else if c == '0' { Some(29) }
    else if c == '1' { Some(18) }
    else if c == '2' { Some(19) }
    else if c == '3' { Some(20) }
    else if c == '4' { Some(21) }
    else if c == '5' { Some(23) }
    else if c == '6' { Some(22) }
    else if c == '7' { Some(26) }
    else if c == '8' { Some(28) }
    else if c == '9' { Some(25) }
    else { None }
}

/// The key code of a named key.
fn named_key(id: &str) -> (r: Option<i64>)
    ensures
        r == named_key_code(id@),
{
    if str_eq(id, "space") { Some(49) }
    else if str_eq(id, "enter") { Some(36) }
    else if str_eq(id, "tab") { Some(48) }
    else if str_eq(id, "backquote") { Some(50) }
    else if str_eq(id, "slash") { Some(44) }
    else if str_eq(id, "minus") { Some(27) }
    else if str_eq(id, "equal") { Some(24) }
    else if str_eq(id, "bracket-left") { Some(33) }
    else if str_eq(id, "bracket-right") { Some(30) }
    else if str_eq(id, "semicolon") { Some(41) }
    else if str_eq(id, "quote") { Some(39) }
    else if str_eq(id, "comma") { Some(43) }
    else if str_eq(id, "period") { Some(47) }
    else if str_eq(id, "backslash") { Some(42) }
    else if str_eq(id, "arrow-up") { Some(126) }
    else if str_eq(id, "arrow-down") { Some(125) }
    else if str_eq(id, "arrow-left") { Some(123) }
    else if str_eq(id, "arrow-right") { Some(124) }
    else if str_eq(id, "f1") { Some(122) }
    else if str_eq(id, "f2") { Some(120) }
    else if str_eq(id, "f3") { Some(99) }
    else if str_eq(id, "f4") { Some(118) }
    else if str_eq(id, "f5") { Some(96) }
    else if str_eq(id, "f6") { Some(97) }
    else if str_eq(id, "f7") { Some(98) }
    else if str_eq(id, "f8") { Some(100) }
    else if str_eq(id, "f9") { Some(101) }
    else if str_eq(id, "f10") { Some(109) }
    else if str_eq(id, "f11") { Some(103) }
    else if str_eq(id, "f12") { Some(111) }
    else { None }
}

/// The key code of a main-key name ("a", "space", "f12", ...).
pub fn key_lookup(id: &str) -> (r: Option<i64>)
    ensures
        r == spec_key_lookup(id@),
{
    let cs = crate::text::chars_of(id);
    if cs.len() == 1 {
        char_key(cs[0])
    } else {
        named_key(id)
    }
}

/// A parsed hotkey. With `modifier_only`, `keycode` is the modifier itself
/// and the hold logic applies; otherwise `keycode` is the main key of a
/// key-down combination.
#[derive(Debug, Clone, Copy, PartialEq, Eq, Structural)]
pub struct HotkeySpec {
    pub modifier_mask: u64,
    pub keycode: i64,
    pub modifier_only: bool,
}

/// The parts read in order: modifier flags OR-ed together, the last
/// modifier's key code, and the last main key's code.
pub open spec fn fold_parts(parts: Seq<Seq<char>>) -> (u64, Option<i64>, Option<i64>)
    decreases parts.len(),
{
    if parts.len() == 0 {
        (0, None, None)
    } else {
        let (mask, last_mod, key) = fold_parts(parts.drop_last());
        match spec_modifier_lookup(parts.last()) {
            Some((kc, m)) => (mask | m, Some(kc), key),
            None => match spec_key_lookup(parts.last()) {
                Some(kc) => (mask, last_mod, Some(kc)),
                None => (mask, last_mod, key),
            },
        }
    }
}

/// The hotkey that `s` ("left-command+shift+k", "right-option") names: a main
/// key makes a combination; modifiers alone make a modifier-only hotkey on
/// the last modifier; anything else falls back to right control.
pub open spec fn spec_parse_hotkey(s: Seq<char>) -> HotkeySpec {
    let (mask, last_mod, key) = fold_parts(split_on(s, '+'));
    match key {
        Some(kc) => HotkeySpec { modifier_mask: mask, keycode: kc, modifier_only: false },
        None => match last_mod {
            Some(kc) => HotkeySpec { modifier_mask: mask, keycode: kc, modifier_only: true },
            None => HotkeySpec { modifier_mask: 0x0000_2000, keycode: 62, modifier_only: true },
        },
    }
}

/// Parse a hotkey id such as "right-control" or "left-command+k".
pub fn parse_hotkey(s: &str) -> (h: HotkeySpec)
    ensures
        h == spec_parse_hotkey(s@),
{
    let parts = split_char(s, '+');
    let ghost ps = parts@.map_values(|p: &str| p@);
    let mut modifier_mask: u64 = 0;
    let mut last_modifier_keycode: Option<i64> = None;
    let mut key_keycode: Option<i64> = None;
    let mut i: usize = 0;
    while i < parts.len()
        invariant
            ps == parts@.map_values(|p: &str| p@),
            ps == split_on(s@, '+'),
            i <= parts@.len(),
            (modifier_mask, last_modifier_keycode, key_keycode) == fold_parts(ps.take(i as int)),
        decreases parts@.len() - i,
    {
        let p = parts[i];
        proof {
            assert(ps.take(i + 1).drop_last() =~= ps.take(i as int));
            assert(ps.take(i + 1).last() == p@);
        }
        match modifier_lookup(p) {
            Some((kc, mask)) => {
                modifier_mask = modifier_mask | mask;
                last_modifier_keycode = Some(kc);
            },
            None => match key_lookup(p) {
                Some(kc) => {
                    key_keycode = Some(kc);
                },
                None => {},
            },
        }
        i = i + 1;
    }
    assert(ps.take(parts@.len() as int) =~= ps);
    match (key_keycode, last_modifier_keycode) {
        (Some(kc), _) => HotkeySpec { modifier_mask, keycode: kc, modifier_only: false },
        (None, Some(kc)) => HotkeySpec { modifier_mask, keycode: kc, modifier_only: true },
        _ => HotkeySpec { modifier_mask: 0x0000_2000, keycode: 62, modifier_only: true },
    }
}

/// Milliseconds from `since` to `now` on a monotonic clock, zero if `now` is
/// not later.
pub open spec fn elapsed_ms(since: u64, now: u64) -> nat {
    if now >= since { (now - since) as nat } else { 0 }
}

/// The transition on a modifier change: press from idle starts recording; a
/// release within the hold threshold turns the press into a toggle; a later
/// release stops (push-to-talk); a press still held past the threshold is
/// classified push-to-talk; a release ends push-to-talk; a press ends a
/// toggle. Other keys, and combination hotkeys, are ignored here.
pub open spec fn spec_flags_changed(mode: RecMode, hk: HotkeySpec, keycode: i64, flags: u64, now_ms: u64) -> (RecMode, RecSignal) {
    if !hk.modifier_only || keycode != hk.keycode {
        (mode, RecSignal::Nothing)
    } else {
        let pressed = (flags & hk.modifier_mask) != 0;
        match mode {
            RecMode::Idle => if pressed {
                (RecMode::Pressed { since_ms: now_ms }, RecSignal::Start)
            } else {
                (mode, RecSignal::Nothing)
            },
            RecMode::Pressed { since_ms } => if !pressed {
                if elapsed_ms(since_ms, now_ms) < HOLD_THRESHOLD_MS {
                    (RecMode::Toggle, RecSignal::ModeToggle)
                } else {
                    (RecMode::Idle, RecSignal::Stop)
                }
            } else if elapsed_ms(since_ms, now_ms) >= HOLD_THRESHOLD_MS {
                (RecMode::PushToTalk, RecSignal::ModePushToTalk)
            } else {
                (mode, RecSignal::Nothing)
            },
            RecMode::PushToTalk => if !pressed {
                (RecMode::Idle, RecSignal::Stop)
            } else {
                (mode, RecSignal::Nothing)
            },
            RecMode::Toggle => if pressed {
                (RecMode::Idle, RecSignal::Stop)
            } else {
                (mode, RecSignal::Nothing)
            },
        }
    }
}

/// The transition on a key press: Shift+Tab while recording cycles the
/// refinement mode; the combination hotkey starts a toggle recording from
/// idle and stops any other; Escape cancels a recording.
pub open spec fn spec_key_down(mode: RecMode, hk: HotkeySpec, keycode: i64, flags: u64) -> (RecMode, RecSignal) {
    if keycode == TAB_KEYCODE && (flags & SHIFT_DEVICE_MASK) != 0 && mode != RecMode::Idle {
        (mode, RecSignal::CycleRefinement)
    } else if !hk.modifier_only && keycode == hk.keycode && (flags & hk.modifier_mask) == hk.modifier_mask {
        if mode == RecMode::Idle {
            (RecMode::Toggle, RecSignal::StartToggle)
        } else {
            (RecMode::Idle, RecSignal::Stop)
        }
    } else if keycode == ESC_KEYCODE && mode != RecMode::Idle {
        (RecMode::Idle, RecSignal::Cancel)
    } else {
        (mode, RecSignal::Nothing)
    }
}

fn elapsed_since(since_ms: u64, now_ms: u64) -> (e: u64)
    ensures
        e == elapsed_ms(since_ms, now_ms),
{
    if now_ms >= since_ms { now_ms - since_ms } else { 0 }
}

/// Apply a modifier change to the recording state; returns what to announce.
pub fn handle_flags_changed(mode: &mut RecMode, hk: &HotkeySpec, keycode: i64, flags: u64, now_ms: u64) -> (sig: RecSignal)
    ensures
        (*final(mode), sig) == spec_flags_changed(*old(mode), *hk, keycode, flags, now_ms),
        signal_consistent(*old(mode), *final(mode), sig),
{
    if !hk.modifier_only || keycode != hk.keycode {
        return RecSignal::Nothing;
    }
    let pressed = (flags & hk.modifier_mask) != 0;
    match *mode {
        RecMode::Idle => {
            if pressed {
                *mode = RecMode::Pressed { since_ms: now_ms };
                RecSignal::Start
            } else {
                RecSignal::Nothing
            }
        },
        RecMode::Pressed { since_ms } => {
            let held = elapsed_since(since_ms, now_ms);
            if !pressed {
                if held < HOLD_THRESHOLD_MS {
                    *mode = RecMode::Toggle;
                    RecSignal::ModeToggle
                } else {
                    *mode = RecMode::Idle;
                    RecSignal::Stop
                }
            } else if held >= HOLD_THRESHOLD_MS {
                *mode = RecMode::PushToTalk;
                RecSignal::ModePushToTalk
            } else {
                RecSignal::Nothing
            }
        },
        RecMode::PushToTalk => {
            if !pressed {
                *mode = RecMode::Idle;
                RecSignal::Stop
            } else {
                RecSignal::Nothing
            }
        },
        RecMode::Toggle => {
            if pressed {
                *mode = RecMode::Idle;
                RecSignal::Stop
            } else {
                RecSignal::Nothing
            }
        },
    }
}

/// Apply a key press to the recording state; returns what to announce.
pub fn handle_key_down(mode: &mut RecMode, hk: &HotkeySpec, keycode: i64, flags: u64) -> (sig: RecSignal)
    ensures
        (*final(mode), sig) == spec_key_down(*old(mode), *hk, keycode, flags),
        signal_consistent(*old(mode), *final(mode), sig),
{
    let recording = *mode != RecMode::Idle;
    if keycode == TAB_KEYCODE && (flags & SHIFT_DEVICE_MASK) != 0 && recording {
        return RecSignal::CycleRefinement;
    }
    if !hk.modifier_only && keycode == hk.keycode && (flags & hk.modifier_mask) == hk.modifier_mask {
        if !recording {
            *mode = RecMode::Toggle;
            return RecSignal::StartToggle;
        } else {
            *mode = RecMode::Idle;
            return RecSignal::Stop;
        }
    }
    if keycode == ESC_KEYCODE && recording {
        *mode = RecMode::Idle;
        return RecSignal::Cancel;
    }
    RecSignal::Nothing
}

/// A keyboard event seen by the event tap.
#[derive(Debug, Clone, Copy)]
pub enum HotkeyEvent {
    FlagsChanged { keycode: i64, flags: u64 },
    KeyDown { keycode: i64, flags: u64 },
}

/// Handle one keyboard event: ignored while the settings UI is capturing a
/// new hotkey, otherwise a modifier change or a key press transition.
pub fn handle_event(mode: &mut RecMode, hk: &HotkeySpec, capture_active: bool, event: HotkeyEvent, now_ms: u64) -> (sig: RecSignal)
    ensures
        capture_active ==> *final(mode) == *old(mode) && sig == RecSignal::Nothing,
        !capture_active ==> (*final(mode), sig) == (match event {
            HotkeyEvent::FlagsChanged { keycode, flags } => spec_flags_changed(*old(mode), *hk, keycode, flags, now_ms),
            HotkeyEvent::KeyDown { keycode, flags } => spec_key_down(*old(mode), *hk, keycode, flags),
        }),
        signal_consistent(*old(mode), *final(mode), sig),
{
    if capture_active {
        return RecSignal::Nothing;
    }
    match event {
        HotkeyEvent::FlagsChanged { keycode, flags } => handle_flags_changed(mode, hk, keycode, flags, now_ms),
        HotkeyEvent::KeyDown { keycode, flags } => handle_key_down(mode, hk, keycode, flags),
    }
}

/// A quick tap toggles: from idle, a press starts recording, a release
/// within the hold threshold keeps it running as a toggle, and the next press
/// stops it.
pub proof fn law_quick_tap_toggles(hk: HotkeySpec, down: u64, up: u64, again: u64, t0: u64, t1: u64, t2: u64)
    requires
        hk.modifier_only,
        (down & hk.modifier_mask) != 0,
        (up & hk.modifier_mask) == 0,
        (again & hk.modifier_mask) != 0,
        t0 <= t1,
        t1 - t0 < HOLD_THRESHOLD_MS,
    ensures
        ({
            let (m1, s1) = spec_flags_changed(RecMode::Idle, hk, hk.keycode, down, t0);
            let (m2, s2) = spec_flags_changed(m1, hk, hk.keycode, up, t1);
            let (m3, s3) = spec_flags_changed(m2, hk, hk.keycode, again, t2);
            &&& s1 == RecSignal::Start
            &&& m2 == RecMode::Toggle && s2 == RecSignal::ModeToggle
            &&& m3 == RecMode::Idle && s3 == RecSignal::Stop
        }),
{
}

/// Holding past the threshold is push-to-talk: the release stops recording.
pub proof fn law_hold_then_release_stops(hk: HotkeySpec, down: u64, up: u64, t0: u64, t1: u64)
    requires
        hk.modifier_only,
        (down & hk.modifier_mask) != 0,
        (up & hk.modifier_mask) == 0,
        t0 <= t1,
        t1 - t0 >= HOLD_THRESHOLD_MS,
    ensures
        ({
            let (m1, s1) = spec_flags_changed(RecMode::Idle, hk, hk.keycode, down, t0);
            let (m2, s2) = spec_flags_changed(m1, hk, hk.keycode, up, t1);
            &&& s1 == RecSignal::Start
            &&& m2 == RecMode::Idle && s2 == RecSignal::Stop
        }),
{
}

/// Escape cancels any recording, unless Escape is itself the combination
/// hotkey being pressed.
pub proof fn law_escape_cancels(mode: RecMode, hk: HotkeySpec, flags: u64)
    requires
        mode != RecMode::Idle,
        !( !hk.modifier_only && hk.keycode == ESC_KEYCODE && (flags & hk.modifier_mask) == hk.modifier_mask),
    ensures
        spec_key_down(mode, hk, ESC_KEYCODE, flags) == (RecMode::Idle, RecSignal::Cancel),
{
}

/// Escape does nothing while idle.
pub proof fn law_escape_when_idle_is_noop(hk: HotkeySpec, flags: u64)
    requires
        !( !hk.modifier_only && hk.keycode == ESC_KEYCODE && (flags & hk.modifier_mask) == hk.modifier_mask),
    ensures
        spec_key_down(RecMode::Idle, hk, ESC_KEYCODE, flags) == (RecMode::Idle, RecSignal::Nothing),
{
}

} // verus!
