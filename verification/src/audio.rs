//! Microphone capture decisions: which device a recording opens, when the
//! warm stream is reopened, rebuilt or closed, how a stopped take is judged,
//! and sample-count arithmetic. The audio callbacks and the stream itself
//! live with the application.

use vstd::prelude::*;
use crate::input_device_cache::InputDeviceCache;
use crate::text::{str_eq, strs, trim_whitespace, trim_ws};

verus! {

/// The outcome of resolving the preferred microphone: what was asked for,
/// what was opened, and whether the saved device was missing so the system
/// default was used instead.
#[derive(Debug, Clone)]
pub struct MicResolution {
    pub requested: Option<String>,
    pub actual: Option<String>,
    pub fell_back: bool,
}

/// The known input devices, as last discovered.
pub fn cached_input_devices(cache: &InputDeviceCache) -> (v: Vec<String>)
    ensures
        strs(v@) == cache.devices(),
{
    cache.snapshot()
}

/// Milliseconds of audio in `samples` interleaved samples.
pub open spec fn spec_sample_to_ms(samples: nat, sample_rate: nat, channels: nat) -> nat {
    if sample_rate == 0 || channels == 0 {
        0
    } else {
        (samples * 1000) / (sample_rate * channels)
    }
}

/// Duration in milliseconds of `samples` interleaved samples; zero for a
/// stream without a rate or channels.
pub fn sample_to_ms(samples: usize, sample_rate: u32, channels: u16) -> (ms: u64)
    requires
        samples * 1000 <= u64::MAX,
    ensures
        ms == spec_sample_to_ms(samples as nat, sample_rate as nat, channels as nat),
{
    if sample_rate == 0 || channels == 0 {
        return 0;
    }
    assert((sample_rate as int) * (channels as int) <= 0xFFFF_FFFF * 0xFFFF && (sample_rate as int) * (channels as int) > 0) by (nonlinear_arith)
        requires
            0 < sample_rate <= 0xFFFF_FFFF,
            0 < channels <= 0xFFFF,
    ;
    let denom = (sample_rate as u64) * (channels as u64);
    (samples as u64 * 1000) / denom
}

/// Which device a recording opens.
#[derive(Debug, Clone, Copy, PartialEq, Eq, Structural)]
pub enum DeviceChoice {
    /// The device at this position of the enumeration.
    Named(usize),
    /// The system default; `fell_back` when a named device was asked for
    /// but is not connected.
    SystemDefault { fell_back: bool },
}

/// The device a preference selects: a nonblank name picks the first device
/// with exactly that (trimmed) name, or falls back to the system default; no
/// name, or a blank one, is the system default.
pub open spec fn spec_pick_device(requested: Option<Seq<char>>, devices: Seq<Seq<char>>) -> DeviceChoice {
    match requested {
        Some(n) if trim_ws(n).len() > 0 => match first_index(devices, trim_ws(n)) {
            Some(i) => DeviceChoice::Named(i as usize),
            None => DeviceChoice::SystemDefault { fell_back: true },
        },
        _ => DeviceChoice::SystemDefault { fell_back: false },
    }
}

/// Position of the first `x` in `s`.
pub open spec fn first_index(s: Seq<Seq<char>>, x: Seq<char>) -> Option<int>
    decreases s.len(),
{
    if s.len() == 0 {
        None
    } else if s[0] == x {
        Some(0)
    } else {
        match first_index(s.drop_first(), x) {
            Some(i) => Some(i + 1),
            None => None,
        }
    }
}

proof fn lemma_first_index(s: Seq<Seq<char>>, x: Seq<char>)
    ensures
        first_index(s, x) matches Some(i) ==> 0 <= i < s.len() && s[i] == x && forall|k: int| 0 <= k < i ==> s[k] != x,
        first_index(s, x) is None ==> forall|k: int| 0 <= k < s.len() ==> s[k] != x,
    decreases s.len(),
{
    if s.len() > 0 && s[0] != x {
        lemma_first_index(s.drop_first(), x);
        assert forall|k: int| 1 <= k < s.len() implies s[k] == s.drop_first()[k - 1] by {}
    }
}

/// Choose the input device for a recording among the enumerated `devices`.
pub fn pick_input_device(requested: Option<&str>, devices: &[String]) -> (c: DeviceChoice)
    ensures
        c == spec_pick_device(crate::state::opt_str(requested), strs(devices@)),
{
    let name = match requested {
        Some(n) => trim_whitespace(n),
        None => return DeviceChoice::SystemDefault { fell_back: false },
    };
    if name.is_empty() {
        return DeviceChoice::SystemDefault { fell_back: false };
    }
    let ghost names = strs(devices@);
    proof {
        lemma_first_index(names, name@);
    }
    let mut i: usize = 0;
    while i < devices.len()
        invariant
            names == strs(devices@),
            crate::state::opt_str(requested) matches Some(x) && trim_ws(x) == name@,
            name@.len() > 0,
            i <= devices@.len(),
            forall|k: int| 0 <= k < i ==> names[k] != name@,
            first_index(names, name@) matches Some(j) ==> 0 <= j < names.len() && names[j] == name@ && forall|k: int| 0 <= k < j ==> names[k] != name@,
            first_index(names, name@) is None ==> forall|k: int| 0 <= k < names.len() ==> names[k] != name@,
        decreases devices@.len() - i,
    {
        assert(names[i as int] == devices@[i as int]@);
        if str_eq(devices[i].as_str(), name) {
            proof {
                if first_index(names, name@) is None {
                    assert(names[i as int] != name@);
                } else {
                    let j = first_index(names, name@)->0;
                    if j < i {
                        assert(names[j] != name@);
                    } else if j > i {
                        assert(names[i as int] != name@);
                    }
                }
            }
            return DeviceChoice::Named(i);
        }
        i = i + 1;
    }
    DeviceChoice::SystemDefault { fell_back: true }
}

/// The character view of an optional string.
pub open spec fn opt_name(o: Option<String>) -> Option<Seq<char>> {
    match o {
        Some(s) => Some(s@),
        None => None,
    }
}

/// A recording or level monitor reopens the stream when none is open or it
/// was opened for a different device preference.
pub fn needs_reopen(open_for: Option<&Option<String>>, device_name: &Option<String>) -> (r: bool)
    ensures
        r == (match open_for {
            None => true,
            Some(o) => opt_name(*o) != opt_name(*device_name),
        }),
{
    match open_for {
        None => true,
        Some(o) => match (o, device_name) {
            (None, None) => false,
            (Some(a), Some(b)) => !str_eq(a.as_str(), b.as_str()),
            _ => true,
        },
    }
}

/// Milliseconds a warm stream stays open after its last use.
pub const IDLE_TIMEOUT_MS: u64 = 5_000;

/// Milliseconds without audio during a recording before the stream counts as
/// dead and is rebuilt.
pub const SILENCE_REBUILD_MS: u64 = 2_500;

/// Most rebuilds of a dead stream during one recording.
pub const MAX_REBUILDS_PER_RECORDING: u32 = 3;

/// The dead-stream watchdog of one recording: the last audio heartbeat seen,
/// when it last advanced, and the rebuilds so far.
pub struct StreamWatchdog {
    pub last_live_seq: u64,
    pub last_live_at_ms: u64,
    pub rebuilds: u32,
}

impl StreamWatchdog {
    /// Armed at the start of a recording.
    pub fn arm(now_ms: u64) -> (w: Self)
        ensures
            w.last_live_seq == 0,
            w.last_live_at_ms == now_ms,
            w.rebuilds == 0,
    {
        StreamWatchdog { last_live_seq: 0, last_live_at_ms: now_ms, rebuilds: 0 }
    }

    /// One poll during a recording with heartbeat `seq`: an advancing
    /// heartbeat is noted; a heartbeat stalled for longer than the rebuild
    /// delay asks for a rebuild, at most the per-recording limit, and
    /// restarts the wait.
    pub fn poll(&mut self, seq: u64, now_ms: u64) -> (rebuild: bool)
        ensures
            seq != old(self).last_live_seq ==> !rebuild && final(self).last_live_seq == seq
                && final(self).last_live_at_ms == now_ms && final(self).rebuilds == old(self).rebuilds,
            seq == old(self).last_live_seq ==> rebuild == (now_ms > old(self).last_live_at_ms
                && now_ms - old(self).last_live_at_ms > SILENCE_REBUILD_MS && old(self).rebuilds < MAX_REBUILDS_PER_RECORDING),
            seq == old(self).last_live_seq && rebuild ==> final(self).rebuilds == old(self).rebuilds + 1
                && final(self).last_live_at_ms == now_ms && final(self).last_live_seq == seq,
            seq == old(self).last_live_seq && !rebuild ==> final(self).rebuilds == old(self).rebuilds
                && final(self).last_live_at_ms == old(self).last_live_at_ms && final(self).last_live_seq == seq,
            final(self).rebuilds <= MAX_REBUILDS_PER_RECORDING || final(self).rebuilds == old(self).rebuilds,
    {
        if seq != self.last_live_seq {
            self.last_live_seq = seq;
            self.last_live_at_ms = now_ms;
            return false;
        }
        let stalled = now_ms > self.last_live_at_ms && now_ms - self.last_live_at_ms > SILENCE_REBUILD_MS;
        if stalled && self.rebuilds < MAX_REBUILDS_PER_RECORDING {
            self.rebuilds = self.rebuilds + 1;
            self.last_live_at_ms = now_ms;
            return true;
        }
        false
    }
}

/// Whether an idle warm stream is closed: it is open, nothing records or
/// monitors, and it has been idle past the timeout.
pub fn should_close_idle(stream_open: bool, recording: bool, monitoring: bool, idle_ms: u64) -> (r: bool)
    ensures
        r == (stream_open && !recording && !monitoring && idle_ms > IDLE_TIMEOUT_MS),
{
    stream_open && !recording && !monitoring && idle_ms > IDLE_TIMEOUT_MS
}

/// A take of at least one second of interleaved samples.
pub fn is_substantial(raw_len: usize, sample_rate: u32, channels: u16) -> (r: bool)
    ensures
        r == (raw_len as int >= sample_rate as int * channels as int),
{
    assert((sample_rate as int) * (channels as int) <= 0xFFFF_FFFF * 0xFFFF) by (nonlinear_arith)
        requires
            sample_rate <= 0xFFFF_FFFF,
            channels <= 0xFFFF,
    ;
    (raw_len as u64) >= (sample_rate as u64) * (channels as u64)
}

/// Milliseconds below which a trimmed take counts as nothing.
pub const MIN_USABLE_MS: u64 = 200;

/// Whether the untrimmed audio is kept for a retry: the leading-silence trim
/// cut something from a substantial take and left almost nothing.
pub fn keep_recovery_audio(trim_idx: usize, substantial: bool, usable_ms: u64) -> (r: bool)
    ensures
        r == (trim_idx > 0 && substantial && usable_ms < MIN_USABLE_MS),
{
    trim_idx > 0 && substantial && usable_ms < MIN_USABLE_MS
}

/// Whether the stream is dropped after a take so the next recording opens a
/// fresh one: a substantial take without voice that came back silent
/// (`peak_silent`: its peak stayed below the silence level) or trimmed to
/// almost nothing.
pub fn drop_stream_after_take(substantial: bool, raw_has_voice: bool, peak_silent: bool, usable_ms: u64) -> (r: bool)
    ensures
        r == (substantial && !raw_has_voice && (peak_silent || usable_ms < MIN_USABLE_MS)),
{
    substantial && !raw_has_voice && (peak_silent || usable_ms < MIN_USABLE_MS)
}

/// Why a recording could not start.
#[derive(Debug, Clone)]
pub enum StartError {
    /// The audio thread reported this failure.
    Device(String),
    /// The audio thread ended before answering.
    ThreadGone,
}

/// The outcome of a recording start, from the audio thread's reply (`None`
/// when the thread ended without one).
pub fn finalize_start(reply: Option<Result<MicResolution, String>>) -> (r: Result<MicResolution, StartError>)
    ensures
        match reply {
            Some(Ok(m)) => (r matches Ok(x) && x == m),
            Some(Err(msg)) => (r matches Err(StartError::Device(e)) && e == msg),
            None => r matches Err(StartError::ThreadGone),
        },
{
    match reply {
        Some(Ok(res)) => Ok(res),
        Some(Err(msg)) => Err(StartError::Device(msg)),
        None => Err(StartError::ThreadGone),
    }
}

} // verus!
