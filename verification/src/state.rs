//! Transport and beat state: what the realtime plane owns and mutates, and
//! ships out as copies in notifications.

use vstd::prelude::*;
use crate::timecode::TimecodeInstant;
use crate::vlt::VltAction;

verus! {

/// Beat position within the current cue. `next_beat_idx` is where the
/// transport goes when the current beat's time runs out; a jump event may
/// move it. `requested_vlt_action` is what the last jump evaluation asked
/// the processor to apply to the VLT flag.
#[derive(Clone, Copy, Debug, PartialEq, Eq, Structural)]
pub struct BeatState {
    pub beat_idx: u16,
    pub next_beat_idx: u16,
    pub requested_vlt_action: VltAction,
}

impl BeatState {
    /// Start-of-cue state: both indices zero, no VLT action pending.
    pub fn new() -> (r: BeatState)
        ensures
            r.beat_idx == 0,
            r.next_beat_idx == 0,
            r.requested_vlt_action == VltAction::Keep,
    {
        BeatState { beat_idx: 0, next_beat_idx: 0, requested_vlt_action: VltAction::Keep }
    }
}

/// Transport state: whether the show runs, the VLT flag, the playback rate
/// in percent, the running timecode, and the time left to the next beat.
#[derive(Clone, Copy, Debug, PartialEq, Eq, Structural)]
pub struct TransportState {
    pub running: bool,
    pub vlt: bool,
    pub playrate_percent: u16,
    pub ltc: TimecodeInstant,
    pub us_to_next_beat: u32,
}

impl TransportState {
    /// Well-formed: a positive playback rate and a normalized timecode.
    pub open spec fn wf(self) -> bool {
        &&& 0 < self.playrate_percent
        &&& self.ltc.wf()
    }

    /// Stopped transport at 100% rate with zeroed 25 fps timecode.
    pub fn new() -> (r: TransportState)
        ensures
            r.wf(),
            !r.running,
            !r.vlt,
            r.playrate_percent == 100,
            r.us_to_next_beat == 0,
    {
        TransportState {
            running: false,
            vlt: false,
            playrate_percent: 100,
            ltc: TimecodeInstant::new(25),
            us_to_next_beat: 0,
        }
    }
}

/// A beat's effective length in microseconds under a playback rate:
/// `length_us * 100 / playrate_percent`.
pub open spec fn effective_beat_len(length_us: u32, playrate_percent: u16) -> int {
    (length_us as int) * 100 / (playrate_percent as int)
}

/// Compute a beat's effective length under the playback rate.
pub fn effective_len(length_us: u32, playrate_percent: u16) -> (r: u64)
    requires
        0 < playrate_percent,
    ensures
        r as int == effective_beat_len(length_us, playrate_percent),
{
    proof {
        assert((length_us as int) * 100 / (playrate_percent as int) >= 0
            && (length_us as int) * 100 / (playrate_percent as int)
                <= (length_us as int) * 100) by (nonlinear_arith)
            requires
                0 < playrate_percent,
                0 <= length_us,
        ;
    }
    (length_us as u64) * 100 / (playrate_percent as u64)
}

/// How many whole samples fit in the time left to the next beat:
/// `(us_to_next_beat / 10) * (sample_rate / 100) / 1000`, a form chosen to
/// avoid overflow at high sample rates.
pub open spec fn spec_samples_to_next_beat(us_to_next_beat: u32, sample_rate: usize) -> int {
    ((us_to_next_beat as int) / 10) * ((sample_rate as int) / 100) / 1000
}

/// Samples until the next beat boundary at the given sample rate. Audio
/// sample rates stay below a million hertz.
pub fn samples_to_next_beat(us_to_next_beat: u32, sample_rate: usize) -> (r: u64)
    requires
        sample_rate <= 1_000_000,
    ensures
        r as int == spec_samples_to_next_beat(us_to_next_beat, sample_rate),
{
    let a: u64 = (us_to_next_beat / 10) as u64;
    let b: u64 = (sample_rate / 100) as u64;
    proof {
        assert(0 <= (a as int) * (b as int) && (a as int) * (b as int)
            < 0x1_0000_0000_0000_0000) by (nonlinear_arith)
            requires
                0 <= a < 0x1_0000_0000u64,
                0 <= b <= 10000u64,
        ;
    }
    (a * b) / 1000
}

/// A cycle of `frame_size` samples will cross the next beat boundary iff
/// fewer samples than that remain before it.
pub fn will_overrun_frame(us_to_next_beat: u32, sample_rate: usize, frame_size: usize) -> (r:
    bool)
    requires
        sample_rate <= 1_000_000,
    ensures
        r == (spec_samples_to_next_beat(us_to_next_beat, sample_rate) < frame_size as int),
{
    samples_to_next_beat(us_to_next_beat, sample_rate) < frame_size as u64
}

} // verus!
