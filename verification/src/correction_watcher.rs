//! After a paste, the focused text field is polled for a while; once the
//! user's edits settle, the pasted region is diffed against what was pasted
//! and a single-word correction is reported. The polling, the accessibility
//! reads and the timing live with the application; the decisions are here.

use vstd::prelude::*;
use vstd::string::StrSliceExecFns;
use crate::corrections::{detect_correction, spec_detect, CorrectionCandidate, law_identical_text_learns_nothing};
use crate::state::CorrectionLearningMode;
use crate::text::{chars_of, chars_start_with, occurs_at, seq_starts_with, str_eq, trim_whitespace, trim_ws};

verus! {

/// Milliseconds between two reads of the focused field.
pub const POLL_INTERVAL_MS: u64 = 250;

/// How long a watcher runs, in milliseconds.
pub const DEFAULT_WATCH_WINDOW_MS: u64 = 20_000;

/// Consecutive unchanged polls before the field counts as settled.
pub const STABLE_POLLS_BEFORE_DETECT: u32 = 3;

/// Attempts at finding the paste in the field before giving up.
pub const SNAPSHOT_MAX_ATTEMPTS: u32 = 8;

/// Milliseconds between those attempts.
pub const SNAPSHOT_RETRY_DELAY_MS: u64 = 120;

/// The payload announcing a detected correction.
#[derive(Debug, Clone)]
pub struct CorrectionDetectedPayload {
    pub from: String,
    pub to: String,
    /// The text the correction was diffed against.
    pub pasted_text: String,
    /// UTF-8 byte offset of `from` within `pasted_text`.
    pub from_offset: usize,
    pub mode: CorrectionLearningMode,
}

impl CorrectionDetectedPayload {
    /// The payload for `candidate` found in `pasted_text`.
    pub fn new(candidate: CorrectionCandidate, pasted_text: &str, mode: CorrectionLearningMode) -> (p: Self)
        ensures
            p.from@ == candidate.from@,
            p.to@ == candidate.to@,
            p.pasted_text@ == pasted_text@,
            p.from_offset == candidate.from_offset,
            p.mode == mode,
    {
        CorrectionDetectedPayload {
            from: candidate.from,
            to: candidate.to,
            pasted_text: pasted_text.to_string(),
            from_offset: candidate.from_offset,
            mode,
        }
    }
}

/// A watcher runs only when learning is on and something was pasted.
pub fn should_watch(mode: CorrectionLearningMode, pasted_text: &str) -> (r: bool)
    ensures
        r == (mode != CorrectionLearningMode::Off && trim_ws(pasted_text@).len() > 0),
{
    mode != CorrectionLearningMode::Off && !trim_whitespace(pasted_text).is_empty()
}

/// The last position where `needle` occurs in `hay` at or before `i`.
pub open spec fn find_last_from(hay: Seq<char>, needle: Seq<char>, i: int) -> Option<int>
    decreases i + 1,
{
    if i < 0 {
        None
    } else if occurs_at(hay, needle, i) {
        Some(i)
    } else {
        find_last_from(hay, needle, i - 1)
    }
}

/// The last position where `needle` occurs in `hay`.
pub open spec fn find_last(hay: Seq<char>, needle: Seq<char>) -> Option<int> {
    find_last_from(hay, needle, hay.len() - needle.len())
}

proof fn lemma_find_last_from(hay: Seq<char>, needle: Seq<char>, i: int)
    ensures
        find_last_from(hay, needle, i) matches Some(j) ==> 0 <= j <= i && occurs_at(hay, needle, j),
    decreases i + 1,
{
    if i >= 0 && !occurs_at(hay, needle, i) {
        lemma_find_last_from(hay, needle, i - 1);
    }
}

/// The text before and after the last occurrence of the paste in the field.
pub open spec fn spec_locate_paste(field: Seq<char>, pasted: Seq<char>) -> Option<(Seq<char>, Seq<char>)> {
    match find_last(field, pasted) {
        Some(i) => Some((field.take(i), field.skip(i + pasted.len()))),
        None => None,
    }
}

/// Locate the paste in the field's text (its last occurrence) and return the
/// anchors around it: the text before and the text after.
pub fn locate_paste(field: &str, pasted: &str) -> (r: Option<(String, String)>)
    ensures
        match r {
            Some((before, after)) => spec_locate_paste(field@, pasted@) == Some((before@, after@)),
            None => spec_locate_paste(field@, pasted@) is None,
        },
{
    let h = crate::text::chars_of_bounded(field);
    let nd = chars_of(pasted);
    if nd.len() > h.len() {
        proof {
            assert(find_last_from(field@, pasted@, field@.len() - pasted@.len()) is None);
        }
        return None;
    }
    let mut i: usize = h.len() - nd.len();
    loop
        invariant
            h@ == field@,
            nd@ == pasted@,
            h@.len() <= isize::MAX,
            nd@.len() <= h@.len(),
            i + nd@.len() <= h@.len(),
            find_last(field@, pasted@) == find_last_from(field@, pasted@, i as int),
        decreases i,
    {
        let hit = crate::text::occurs_at_chars(&h, &nd, i);
        if hit {
            proof {
                lemma_find_last_from(field@, pasted@, i as int);
            }
            let before = field.substring_char(0, i);
            let after = field.substring_char(i + nd.len(), h.len());
            assert(before@ =~= field@.take(i as int));
            assert(after@ =~= field@.skip(i + pasted@.len()));
            return Some((before.to_string(), after.to_string()));
        }
        if i == 0 {
            assert(find_last_from(field@, pasted@, -1) is None);
            return None;
        }
        i = i - 1;
    }
}

/// `s` ends with `suf`.
pub open spec fn seq_ends_with(s: Seq<char>, suf: Seq<char>) -> bool {
    suf.len() <= s.len() && s.skip(s.len() - suf.len()) == suf
}

/// The pasted region of the field's current text: what lies between the
/// anchors, when the field still starts and ends with them.
pub open spec fn spec_edited_region(current: Seq<char>, before: Seq<char>, after: Seq<char>) -> Option<Seq<char>> {
    if seq_starts_with(current, before) && seq_ends_with(current, after) && current.len() >= before.len() + after.len() {
        Some(current.subrange(before.len() as int, current.len() - after.len()))
    } else {
        None
    }
}

/// The pasted region of the field between the anchors, if they still hold.
pub fn edited_region(current: &str, before: &str, after: &str) -> (r: Option<String>)
    ensures
        match r {
            Some(e) => spec_edited_region(current@, before@, after@) == Some(e@),
            None => spec_edited_region(current@, before@, after@) is None,
        },
{
    let c = chars_of(current);
    let b = chars_of(before);
    let a = chars_of(after);
    if !chars_start_with(&c, &b) {
        return None;
    }
    if a.len() > c.len() {
        return None;
    }
    let tail = current.substring_char(c.len() - a.len(), c.len());
    let ends = str_eq(tail, after);
    assert(tail@ =~= current@.skip(current@.len() - after@.len()));
    if !ends {
        return None;
    }
    if c.len() - a.len() < b.len() {
        return None;
    }
    let mid = current.substring_char(b.len(), c.len() - a.len());
    Some(mid.to_string())
}

/// The state of one watcher between polls: the text the next correction is
/// diffed against, the field as last read, how many polls it has stayed the
/// same, and the anchors around the paste.
pub struct WatchState {
    pub baseline: String,
    pub last_field: String,
    pub stable_ticks: u32,
    pub anchor_before: String,
    pub anchor_after: String,
}

impl WatchState {
    /// A watcher that found the paste in `field`, with the given anchors.
    pub fn new(pasted: &str, field: &str, anchor_before: String, anchor_after: String) -> (w: Self)
        ensures
            w.baseline@ == pasted@,
            w.last_field@ == field@,
            w.stable_ticks == 0,
            w.anchor_before == anchor_before,
            w.anchor_after == anchor_after,
    {
        WatchState {
            baseline: pasted.to_string(),
            last_field: field.to_string(),
            stable_ticks: 0,
            anchor_before,
            anchor_after,
        }
    }

    /// One poll that read `current` from the field. When the field has just
    /// been still for the settle count and the anchors hold, the pasted
    /// region is diffed against the baseline; a correction found is returned
    /// and becomes the new baseline, and the settle count steps back by one
    /// so the same state does not fire again.
    pub fn tick(&mut self, current: &str) -> (found: Option<CorrectionCandidate>)
        requires
            old(self).stable_ticks < u32::MAX,
        ensures
            final(self).anchor_before == old(self).anchor_before,
            final(self).anchor_after == old(self).anchor_after,
            final(self).last_field@ == current@,
            ({
                let stable = if current@ == old(self).last_field@ { old(self).stable_ticks + 1 } else { 0 };
                let region = spec_edited_region(current@, old(self).anchor_before@, old(self).anchor_after@);
                if stable == STABLE_POLLS_BEFORE_DETECT && region is Some {
                    let d = spec_detect(old(self).baseline@, region->0, None);
                    match found {
                        Some(c) => d == Some(c.view3()) && final(self).baseline@ == region->0
                            && final(self).stable_ticks == stable - 1,
                        None => d is None && final(self).baseline@ == old(self).baseline@
                            && final(self).stable_ticks == stable,
                    }
                } else {
                    found is None && final(self).baseline@ == old(self).baseline@
                        && final(self).stable_ticks == stable
                }
            }),
    {
        if str_eq(current, self.last_field.as_str()) {
            self.stable_ticks = self.stable_ticks + 1;
        } else {
            self.stable_ticks = 0;
            self.last_field = current.to_string();
        }
        let region = edited_region(current, self.anchor_before.as_str(), self.anchor_after.as_str());
        if self.stable_ticks != STABLE_POLLS_BEFORE_DETECT {
            return None;
        }
        let edited = match region {
            Some(e) => e,
            None => return None,
        };
        let detect = detect_correction(self.baseline.as_str(), edited.as_str(), None);
        match detect {
            Some(c) => {
                self.baseline = edited;
                self.stable_ticks = self.stable_ticks - 1;
                Some(c)
            },
            None => None,
        }
    }
}

/// A detected correction does not fire again on the same settled field: the
/// next poll reading the same text diffs the region against itself.
pub proof fn law_no_refire_on_same_field(region: Seq<char>)
    ensures
        spec_detect(region, region, None) is None,
{
    law_identical_text_learns_nothing(region);
}

} // verus!
