//! Per-channel clip playback. A playback device arms when a playback-start
//! event pre-fires on its channel, then emits its clip sample-accurately,
//! cycle by cycle; a non-realtime handler sizes the publication slots from
//! the show and plans which clips to decode when a cue is loaded. The
//! decisions here are integer logic; sample data stays with the loader.

use vstd::prelude::*;
use crate::clipstore::ClipSlot;
use crate::model::{events_at_spec, Cue, Event, EventDescription, Show};
use crate::protocol::ControlAction;

verus! {

/// Why a source could not produce audio.
#[derive(Clone, Copy, Debug, PartialEq, Eq, Structural)]
pub enum AudioSourceError {
    /// The armed slot index points outside the device's slot array.
    ClipIndexOutOfRange,
}

/// What a playback device emits for one cycle.
#[derive(Clone, Copy, Debug, PartialEq, Eq, Structural)]
pub enum PlaybackOut {
    /// Stopped, disarmed, pre-rolling or out of samples: silence.
    Silence,
    /// Emit `frame_size` samples of the clip in slot `slot`, starting at
    /// sample `start`.
    Clip { slot: usize, start: u32 },
}

/// The playback position a seek walk reconstructs: which clip ran last,
/// whether it still runs, its starting sample offset, and the microseconds
/// elapsed since it started.
pub struct SeekState {
    pub clip: u16,
    pub active: bool,
    pub sample: int,
    pub since_us: int,
}

/// Seek state at the start of a cue: disarmed, clip 0, offset 0.
pub open spec fn seek_init() -> SeekState {
    SeekState { clip: 0, active: false, sample: 0, since_us: 0 }
}

/// One event's effect on the seek state, for a device on `channel`:
/// a playback start re-arms at the event's clip and offset and restarts
/// the elapsed-time count; a playback stop disarms; all else is inert.
pub open spec fn apply_seek_event(st: SeekState, e: Event, channel: u16) -> SeekState {
    match e.description {
        EventDescription::PlaybackStart { channel: c, clip_idx, sample_offset } => if c
            == channel {
            SeekState { clip: clip_idx, active: true, sample: sample_offset as int, since_us: 0 }
        } else {
            st
        },
        EventDescription::PlaybackStop { channel: c } => if c == channel {
            SeekState { active: false, ..st }
        } else {
            st
        },
        _ => st,
    }
}

/// A run of events applied in order.
pub open spec fn apply_seek_events(st: SeekState, events: Seq<Event>, channel: u16) -> SeekState
    decreases events.len(),
{
    if events.len() == 0 {
        st
    } else {
        apply_seek_event(apply_seek_events(st, events.drop_last(), channel), events.last(), channel)
    }
}

/// The seek state after walking the first `b` beats of a cue: each beat's
/// events in slot order, then that beat's length added to the elapsed time.
pub open spec fn seek_walk(cue: Cue, channel: u16, b: int) -> SeekState
    decreases b,
{
    if b <= 0 {
        seek_init()
    } else {
        let st = apply_seek_events(
            seek_walk(cue, channel, b - 1),
            events_at_spec(cue.events@, (b - 1) as u16),
            channel,
        );
        SeekState {
            since_us: st.since_us + if b - 1 < cue.beats@.len() {
                cue.beats@[b - 1].length_us as int
            } else {
                0int
            },
            ..st
        }
    }
}

/// Microseconds converted to whole samples at a rate.
pub open spec fn us_to_samples(us: int, sample_rate: int) -> int {
    us * sample_rate / 1_000_000
}

/// An integer clamped into `i32` range.
pub open spec fn clamp_i32(v: int) -> int {
    if v > i32::MAX as int {
        i32::MAX as int
    } else if v < i32::MIN as int {
        i32::MIN as int
    } else {
        v
    }
}

/// The slot index of the last element of `s` equal to `v`, if any.
pub open spec fn last_match(s: Seq<u64>, v: u64) -> Option<int>
    decreases s.len(),
{
    if s.len() == 0 {
        None
    } else if s.last() == v {
        Some(s.len() - 1)
    } else {
        last_match(s.drop_last(), v)
    }
}

/// One playback channel's realtime state.
pub struct PlaybackCore {
    pub channel_idx: u16,
    pub current_sample: i32,
    pub current_clip: usize,
    pub active: bool,
    pub slots: Vec<ClipSlot>,
}

impl PlaybackCore {
    /// A disarmed device for a channel, with its publication slots.
    pub fn new(channel_idx: u16, slots: Vec<ClipSlot>) -> (r: PlaybackCore)
        ensures
            r.channel_idx == channel_idx,
            r.current_sample == 0,
            r.current_clip == 0,
            !r.active,
            r.slots@.len() == slots@.len(),
    {
        PlaybackCore { channel_idx, current_sample: 0, current_clip: 0, active: false, slots }
    }

    /// One cycle's decision, given the armed clip's published length.
    /// Silence while the transport is stopped, the device is disarmed, or
    /// the offset still pre-rolls below zero — those cycles change
    /// nothing. A cycle that would run past the clip's end (or past the
    /// offset range) disarms the device and stays silent. Otherwise the
    /// clip plays from the current offset and the offset advances by one
    /// frame.
    pub fn advance_with_len(&mut self, running: bool, frame_size: usize, clip_len: u64) -> (r:
        PlaybackOut)
        requires
            frame_size <= 0x10000,
        ensures
            final(self).channel_idx == old(self).channel_idx,
            final(self).current_clip == old(self).current_clip,
            final(self).slots@.len() == old(self).slots@.len(),
            ({
                let idle = !running || !old(self).active || old(self).current_sample < 0;
                let overrun = old(self).current_sample + frame_size > clip_len
                    || old(self).current_sample + frame_size > i32::MAX;
                &&& idle ==> (r == PlaybackOut::Silence
                    && final(self).active == old(self).active
                    && final(self).current_sample == old(self).current_sample)
                &&& !idle && overrun ==> (r == PlaybackOut::Silence
                    && !final(self).active
                    && final(self).current_sample == old(self).current_sample)
                &&& !idle && !overrun ==> (r == (PlaybackOut::Clip {
                    slot: old(self).current_clip,
                    start: old(self).current_sample as u32,
                })
                    && final(self).active
                    && final(self).current_sample == old(self).current_sample + frame_size)
            }),
    {
        if !running {
            return PlaybackOut::Silence;
        }
        if !self.active || self.current_sample < 0 {
            return PlaybackOut::Silence;
        }
        let need: u64 = self.current_sample as u64 + frame_size as u64;
        if need > clip_len || need > i32::MAX as u64 {
            self.active = false;
            return PlaybackOut::Silence;
        }
        let start = self.current_sample as u32;
        self.current_sample = self.current_sample + frame_size as i32;
        PlaybackOut::Clip { slot: self.current_clip, start }
    }

    /// One realtime cycle: load the armed slot's published length and
    /// decide. Fails only when the armed slot index points outside the
    /// slot array. The cheap silence cases go first, before any slot
    /// read. Whatever length the loader published, an armed in-range
    /// cycle either plays the clip from the current offset and advances
    /// it, or disarms without moving it.
    pub fn send_buffer(&mut self, running: bool, frame_size: usize) -> (r: Result<
        PlaybackOut,
        AudioSourceError,
    >)
        requires
            frame_size <= 0x10000,
        ensures
            final(self).channel_idx == old(self).channel_idx,
            final(self).current_clip == old(self).current_clip,
            final(self).slots@.len() == old(self).slots@.len(),
            ({
                let idle = !running || !old(self).active || old(self).current_sample < 0;
                &&& idle ==> (r == Ok::<PlaybackOut, AudioSourceError>(PlaybackOut::Silence)
                    && final(self).active == old(self).active
                    && final(self).current_sample == old(self).current_sample)
                &&& (r is Err <==> !idle && old(self).current_clip >= old(self).slots@.len())
                &&& !idle && old(self).current_clip < old(self).slots@.len() ==> {
                    ||| (r == Ok::<PlaybackOut, AudioSourceError>(PlaybackOut::Clip {
                        slot: old(self).current_clip,
                        start: old(self).current_sample as u32,
                    }) && final(self).active && final(self).current_sample == old(
                        self,
                    ).current_sample + frame_size)
                    ||| (r == Ok::<PlaybackOut, AudioSourceError>(PlaybackOut::Silence)
                        && !final(self).active && final(self).current_sample == old(
                        self,
                    ).current_sample)
                }
            }),
    {
        if !running || !self.active || self.current_sample < 0 {
            return Ok(PlaybackOut::Silence);
        }
        if self.current_clip >= self.slots.len() {
            return Err(AudioSourceError::ClipIndexOutOfRange);
        }
        let clip_len: u64 = self.slots[self.current_clip].read_length();
        Ok(self.advance_with_len(running, frame_size, clip_len))
    }

    /// Arm from a playback-start event, given the clip indices the slots
    /// currently publish: every matching slot is selected (the last one
    /// wins) and any mismatching slot disarms the device, so it plays only
    /// when all slots hold the named clip.
    pub fn arm_with_indices(&mut self, clip_idx: u16, sample_offset: i32, loaded: &Vec<u64>)
        ensures
            final(self).channel_idx == old(self).channel_idx,
            final(self).slots@.len() == old(self).slots@.len(),
            final(self).current_sample == sample_offset,
            final(self).active == (forall|j: int|
                0 <= j < loaded@.len() ==> loaded@[j] == clip_idx as u64),
            final(self).current_clip == match last_match(loaded@, clip_idx as u64) {
                Some(i) => i,
                None => old(self).current_clip as int,
            },
    {
        self.active = true;
        self.current_sample = sample_offset;
        let n = loaded.len();
        let mut i: usize = 0;
        while i < n
            invariant
                n == loaded@.len(),
                i <= n,
                self.channel_idx == old(self).channel_idx,
                self.slots@.len() == old(self).slots@.len(),
                self.current_sample == sample_offset,
                self.active == (forall|j: int|
                    0 <= j < i ==> loaded@[j] == clip_idx as u64),
                self.current_clip == match last_match(loaded@.subrange(0, i as int),
                    clip_idx as u64) {
                    Some(k) => k,
                    None => old(self).current_clip as int,
                },
            decreases n - i,
        {
            proof {
                let pre = loaded@.subrange(0, i + 1 as int);
                assert(pre.drop_last() =~= loaded@.subrange(0, i as int));
                assert(pre.last() == loaded@[i as int]);
            }
            if loaded[i] == clip_idx as u64 {
                self.current_clip = i;
            } else {
                self.active = false;
            }
            i += 1;
        }
        proof {
            assert(loaded@.subrange(0, n as int) =~= loaded@);
        }
    }

    /// The clip indices all slots currently publish, in slot order.
    pub fn read_slot_indices(&self) -> (r: Vec<u64>)
        ensures
            r@.len() == self.slots@.len(),
    {
        let mut r: Vec<u64> = Vec::new();
        let mut i: usize = 0;
        while i < self.slots.len()
            invariant
                i <= self.slots@.len(),
                r@.len() == i,
            decreases self.slots@.len() - i,
        {
            r.push(self.slots[i].read_index());
            i += 1;
        }
        r
    }

    /// Pre-fire handling. A playback start on this channel, when the
    /// coming cycle crosses the beat boundary, arms the device a few
    /// samples early so the clip aligns on the downbeat sample; the arm
    /// outcome is exactly `arm_with_indices` of whatever clip indices the
    /// slots published at that moment. A playback stop on this channel
    /// disarms the device. Everything else is inert.
    pub fn event_will_occur(&mut self, will_overrun: bool, event: &Event)
        ensures
            final(self).channel_idx == old(self).channel_idx,
            final(self).slots@.len() == old(self).slots@.len(),
            match event.description {
                EventDescription::PlaybackStart { channel, clip_idx, sample_offset } => if channel
                    == old(self).channel_idx && will_overrun {
                    &&& final(self).current_sample == sample_offset
                    &&& exists|loaded: Seq<u64>|
                        {
                            &&& #[trigger] loaded.len() == old(self).slots@.len()
                            &&& final(self).active == (forall|j: int|
                                0 <= j < loaded.len() ==> loaded[j] == clip_idx as u64)
                            &&& final(self).current_clip == (match last_match(
                                loaded,
                                clip_idx as u64,
                            ) {
                                Some(i) => i,
                                None => old(self).current_clip as int,
                            })
                        }
                } else {
                    *final(self) == *old(self)
                },
                EventDescription::PlaybackStop { channel } => if channel == old(self).channel_idx {
                    !final(self).active && final(self).current_sample == old(self).current_sample
                        && final(self).current_clip == old(self).current_clip
                } else {
                    *final(self) == *old(self)
                },
                _ => *final(self) == *old(self),
            },
    {
        match event.description {
            EventDescription::PlaybackStart { channel, clip_idx, sample_offset } => {
                if channel != self.channel_idx || !will_overrun {
                    return;
                }
                let loaded = self.read_slot_indices();
                self.arm_with_indices(clip_idx, sample_offset, &loaded);
                proof {
                    assert(loaded@.len() == old(self).slots@.len() && self.active == (
                    forall|j: int| 0 <= j < loaded@.len() ==> loaded@[j] == clip_idx as u64)
                        && self.current_clip == (match last_match(loaded@, clip_idx as u64) {
                        Some(i) => i,
                        None => old(self).current_clip as int,
                    }));
                }
            }
            EventDescription::PlaybackStop { channel } => {
                if channel != self.channel_idx {
                    return;
                }
                self.active = false;
            }
            _ => {}
        }
    }

    /// Reconstruct the playback position at a beat by walking the cue's
    /// events up to it, then converting the elapsed time to samples.
    /// The offset saturates at the `i32` bounds.
    pub fn calculate_time_at_beat(&self, cue: &Cue, beat_idx: u16, sample_rate: usize) -> (r: (
        usize,
        bool,
        i32,
    ))
        requires
            cue.wf(),
            sample_rate <= 1_000_000,
        ensures
            ({
                let st = seek_walk(*cue, self.channel_idx, beat_idx as int);
                &&& r.0 == st.clip as int
                &&& r.1 == st.active
                &&& r.2 == clamp_i32(st.sample + us_to_samples(st.since_us, sample_rate as int))
            }),
    {
        let mut clip: u16 = 0;
        let mut active: bool = false;
        let mut sample: i64 = 0;
        let mut since_us: u64 = 0;
        let mut i: u16 = 0;
        while i < beat_idx
            invariant
                cue.wf(),
                i <= beat_idx,
                ({
                    let st = seek_walk(*cue, self.channel_idx, i as int);
                    &&& clip as int == st.clip
                    &&& active == st.active
                    &&& sample as int == st.sample
                    &&& since_us as int == st.since_us
                }),
                -0x8000_0000 <= sample <= 0x7fff_ffff,
                since_us <= (i as int) * 0x1_0000_0000,
            decreases beat_idx - i,
        {
            let events = cue.events.events_at(i);
            let ghost st0 = seek_walk(*cue, self.channel_idx, i as int);
            let mut j: usize = 0;
            while j < events.len()
                invariant
                    j <= events@.len(),
                    ({
                        let st = apply_seek_events(st0, events@.subrange(0, j as int),
                            self.channel_idx);
                        &&& clip as int == st.clip
                        &&& active == st.active
                        &&& sample as int == st.sample
                        &&& since_us as int == st.since_us
                    }),
                    -0x8000_0000 <= sample <= 0x7fff_ffff,
                    since_us <= (i as int) * 0x1_0000_0000,
                decreases events@.len() - j,
            {
                proof {
                    let pre = events@.subrange(0, j + 1 as int);
                    assert(pre.drop_last() =~= events@.subrange(0, j as int));
                    assert(pre.last() == events@[j as int]);
                }
                match events[j].description {
                    EventDescription::PlaybackStart { channel, clip_idx, sample_offset } => {
                        if channel == self.channel_idx {
                            clip = clip_idx;
                            active = true;
                            sample = sample_offset as i64;
                            since_us = 0;
                        }
                    }
                    EventDescription::PlaybackStop { channel } => {
                        if channel == self.channel_idx {
                            active = false;
                        }
                    }
                    _ => {}
                }
                j += 1;
            }
            proof {
                assert(events@.subrange(0, events@.len() as int) =~= events@);
            }
            let len_here: u32 = match cue.get_beat(i) {
                Some(beat) => beat.length_us,
                None => 0,
            };
            since_us = since_us + len_here as u64;
            i += 1;
        }
        let converted: i64 = self.us_samples_i64(since_us, sample_rate);
        let total: i64 = sample + converted;
        let clamped: i32 = if total > i32::MAX as i64 {
            i32::MAX
        } else if total < i32::MIN as i64 {
            i32::MIN
        } else {
            total as i32
        };
        (clip as usize, active, clamped)
    }

    /// Microseconds to samples at a rate, in wide arithmetic.
    fn us_samples_i64(&self, us: u64, sample_rate: usize) -> (r: i64)
        requires
            us <= 0x1_0000_0000_0000,
            sample_rate <= 1_000_000,
        ensures
            r as int == us_to_samples(us as int, sample_rate as int),
            0 <= r <= us,
    {
        proof {
            assert(0 <= (us as int) * (sample_rate as int) / 1_000_000
                && (us as int) * (sample_rate as int) / 1_000_000 < 0x8000_0000_0000_0000)
                by (nonlinear_arith)
                requires
                    0 <= us <= 0x1_0000_0000_0000u64,
                    0 <= sample_rate <= 1_000_000,
            ;
            assert((us as int) * (sample_rate as int) <= 1_000_000 * (us as int))
                by (nonlinear_arith)
                requires
                    0 <= us,
                    0 <= sample_rate <= 1_000_000,
            ;
            vstd::arithmetic::div_mod::lemma_div_is_ordered(
                (us as int) * (sample_rate as int),
                1_000_000int * (us as int),
                1_000_000int,
            );
            vstd::arithmetic::div_mod::lemma_div_multiples_vanish(us as int, 1_000_000int);
        }
        let wide: u128 = (us as u128) * (sample_rate as u128) / 1_000_000;
        wide as i64
    }

    /// Apply a transport command: stop and zero disarm; jump re-seats the
    /// position at the target beat; seek does the same and then backs the
    /// offset up by the time still left to the next beat, so playback
    /// falls where the seek lands.
    pub fn command(
        &mut self,
        cue: &Cue,
        us_to_next_beat: u32,
        sample_rate: usize,
        action: ControlAction,
    )
        requires
            cue.wf(),
            sample_rate <= 1_000_000,
        ensures
            final(self).channel_idx == old(self).channel_idx,
            final(self).slots@.len() == old(self).slots@.len(),
            match action {
                ControlAction::TransportStop | ControlAction::TransportZero => !final(self).active
                    && final(self).current_sample == old(self).current_sample && final(self).current_clip == old(self).current_clip,
                ControlAction::TransportJumpBeat(b) => ({
                    let st = seek_walk(*cue, old(self).channel_idx, b as int);
                    &&& final(self).current_clip == st.clip as int
                    &&& final(self).active == st.active
                    &&& final(self).current_sample == clamp_i32(st.sample + us_to_samples(
                        st.since_us,
                        sample_rate as int,
                    ))
                }),
                ControlAction::TransportSeekBeat(b) => ({
                    let st = seek_walk(*cue, old(self).channel_idx, b as int);
                    &&& final(self).current_clip == st.clip as int
                    &&& final(self).active == st.active
                    &&& final(self).current_sample == clamp_i32(clamp_i32(st.sample
                        + us_to_samples(st.since_us, sample_rate as int)) - us_to_samples(
                        us_to_next_beat as int,
                        sample_rate as int,
                    ))
                }),
                _ => *final(self) == *old(self),
            },
    {
        match action {
            ControlAction::TransportStop => {
                self.active = false;
            }
            ControlAction::TransportZero => {
                self.active = false;
            }
            ControlAction::TransportJumpBeat(b) => {
                let (clip, active, sample) = self.calculate_time_at_beat(cue, b, sample_rate);
                self.current_clip = clip;
                self.active = active;
                self.current_sample = sample;
            }
            ControlAction::TransportSeekBeat(b) => {
                let (clip, active, sample) = self.calculate_time_at_beat(cue, b, sample_rate);
                self.current_clip = clip;
                self.active = active;
                let back: i64 = self.us_samples_i64(us_to_next_beat as u64, sample_rate);
                let total: i64 = sample as i64 - back;
                self.current_sample = if total > i32::MAX as i64 {
                    i32::MAX
                } else if total < i32::MIN as i64 {
                    i32::MIN
                } else {
                    total as i32
                };
            }
            _ => {}
        }
    }
}

} // verus!
