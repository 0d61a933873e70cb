//! Text recognition of the focused window: choosing the window to capture
//! from the window list, and assembling the recognized lines. Capturing the
//! image and running the recognizer live with the application.

use vstd::prelude::*;
use crate::text::{join_sep, join_strings, strs, trim_whitespace, trim_ws};

verus! {

/// One entry of the on-screen window list: owner process, layer and window
/// number, each when it could be read.
#[derive(Debug, Clone, Copy)]
pub struct WindowInfo {
    pub owner_pid: Option<i32>,
    pub layer: Option<i32>,
    pub number: Option<i64>,
}

/// Whether an entry is a normal application window of `pid` with a valid
/// window number.
pub open spec fn is_app_window(w: WindowInfo, pid: i32) -> bool {
    &&& w.owner_pid == Some(pid)
    &&& (match w.layer { Some(l) => l == 0, None => false })
    &&& (match w.number { Some(n) => 0 < n <= u32::MAX, None => false })
}

/// The window number of the first application window of `pid`.
pub open spec fn spec_focused_window(windows: Seq<WindowInfo>, pid: i32) -> Option<u32>
    decreases windows.len(),
{
    if windows.len() == 0 {
        None
    } else if is_app_window(windows[0], pid) {
        Some(windows[0].number->0 as u32)
    } else {
        spec_focused_window(windows.drop_first(), pid)
    }
}

/// The window of process `pid` to capture: the first normal-layer window in
/// on-screen order with a valid window number.
pub fn focused_window_id_for_pid(windows: &[WindowInfo], target_pid: i32) -> (r: Option<u32>)
    ensures
        r == spec_focused_window(windows@, target_pid),
{
    let mut i: usize = 0;
    assert(windows@.skip(0) =~= windows@);
    while i < windows.len()
        invariant
            i <= windows@.len(),
            spec_focused_window(windows@, target_pid) == spec_focused_window(windows@.skip(i as int), target_pid),
        decreases windows@.len() - i,
    {
        let w = windows[i];
        proof {
            assert(windows@.skip(i as int)[0] == w);
            assert(windows@.skip(i as int).drop_first() =~= windows@.skip(i + 1));
        }
        let pid_ok = match w.owner_pid {
            Some(p) => p == target_pid,
            None => false,
        };
        let layer_ok = match w.layer {
            Some(l) => l == 0,
            None => false,
        };
        if pid_ok && layer_ok {
            match w.number {
                Some(n) => {
                    if n > 0 && n <= 0xFFFF_FFFF {
                        return Some(n as u32);
                    }
                },
                None => {},
            }
        }
        i = i + 1;
    }
    proof {
        assert(windows@.skip(windows@.len() as int) =~= Seq::<WindowInfo>::empty());
    }
    None
}

/// The recognized lines that are not blank, trimmed.
pub open spec fn kept_lines(lines: Seq<Seq<char>>) -> Seq<Seq<char>>
    decreases lines.len(),
{
    if lines.len() == 0 {
        Seq::empty()
    } else {
        let rest = kept_lines(lines.drop_last());
        let t = trim_ws(lines.last());
        if t.len() > 0 { rest.push(t) } else { rest }
    }
}

/// The recognized text: the nonblank lines joined by spaces and trimmed, or
/// none when nothing is left.
pub open spec fn spec_ocr_text(lines: Seq<Seq<char>>) -> Option<Seq<char>> {
    let joined = trim_ws(join_sep(kept_lines(lines), " "@));
    if joined.len() == 0 { None } else { Some(joined) }
}

/// Assemble the recognizer's top candidate lines into the captured text.
pub fn assemble_ocr_text(lines: &[String]) -> (r: Option<String>)
    ensures
        match r {
            Some(t) => spec_ocr_text(strs(lines@)) == Some(t@),
            None => spec_ocr_text(strs(lines@)) is None,
        },
{
    let mut kept: Vec<String> = Vec::new();
    let mut i: usize = 0;
    while i < lines.len()
        invariant
            i <= lines@.len(),
            strs(kept@) == kept_lines(strs(lines@).take(i as int)),
        decreases lines@.len() - i,
    {
        let t = trim_whitespace(lines[i].as_str());
        let ghost before = strs(kept@);
        proof {
            let s = strs(lines@).take(i + 1);
            assert(s.drop_last() =~= strs(lines@).take(i as int));
            assert(s.last() == lines@[i as int]@);
        }
        if !t.is_empty() {
            kept.push(t.to_string());
            assert(strs(kept@) =~= before.push(t@));
        }
        i = i + 1;
    }
    assert(strs(lines@).take(lines@.len() as int) =~= strs(lines@));
    let joined = join_strings(kept.as_slice(), " ");
    let t = trim_whitespace(joined.as_str());
    if t.is_empty() {
        None
    } else {
        Some(t.to_string())
    }
}

} // verus!
