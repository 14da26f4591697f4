//! The linear-timecode source: advances the running timecode with the
//! audio clock, renders each new frame's biphase waveform into a two-frame
//! ring, and hands out the window of the ring the current cycle covers.
//! Samples are integer quarter-polarities; amplitude scaling is outside.

use vstd::prelude::*;
use crate::model::{events_at_spec, Cue, Event, EventDescription};
use crate::protocol::ControlAction;
use crate::smpte::{
    biphase_seq, generate_smpte_frame_bits, generate_smpte_frame_buffer, smooth_seq,
    smooth_triangular, smpte_word,
};
use crate::timecode::TimecodeInstant;

verus! {

/// Size of the frame ring: room for two frames at any supported rate.
pub const RING_SIZE: usize = 8192;

/// One frame as rendered into the ring: the smoothed biphase waveform of
/// the word, zero-padded up to a whole frame of samples.
pub open spec fn rendered_frame(
    t: TimecodeInstant,
    drop_frame: bool,
    color_framing: bool,
    external_clock: bool,
    spb: int,
    spf: int,
) -> Seq<int> {
    smooth_seq(biphase_seq(smpte_word(t, drop_frame, color_framing, external_clock), spb))
        + Seq::new((spf - 80 * spb) as nat, |j: int| 0int)
}

/// The timecode fields a seek walk reconstructs, plus the microseconds
/// elapsed since the last timecode-set event (or the cue start).
pub struct TcSeekState {
    pub h: u16,
    pub m: u16,
    pub s: u16,
    pub f: u16,
    pub since_us: int,
}

/// Timecode seek state at the start of a cue.
pub open spec fn tc_seek_init() -> TcSeekState {
    TcSeekState { h: 0, m: 0, s: 0, f: 0, since_us: 0 }
}

/// One event's effect on the timecode seek state, at a frame rate: a
/// timecode-set event rebases the fields (normalized below their moduli,
/// hours passing through) and restarts the elapsed count.
pub open spec fn apply_tc_event(st: TcSeekState, e: Event, rate: u16) -> TcSeekState {
    match e.description {
        EventDescription::TimecodeSet { h, m, s, f } => TcSeekState {
            h,
            m: (m as int % 60) as u16,
            s: (s as int % 60) as u16,
            f: (f as int % (rate as int)) as u16,
            since_us: 0,
        },
        _ => st,
    }
}

/// A run of events applied in order.
pub open spec fn apply_tc_events(st: TcSeekState, events: Seq<Event>, rate: u16) -> TcSeekState
    decreases events.len(),
{
    if events.len() == 0 {
        st
    } else {
        apply_tc_event(apply_tc_events(st, events.drop_last(), rate), events.last(), rate)
    }
}

/// The timecode seek state after walking the first `b` beats of a cue.
pub open spec fn tc_walk(cue: Cue, rate: u16, b: int) -> TcSeekState
    decreases b,
{
    if b <= 0 {
        tc_seek_init()
    } else {
        let st = apply_tc_events(
            tc_walk(cue, rate, b - 1),
            events_at_spec(cue.events@, (b - 1) as u16),
            rate,
        );
        TcSeekState {
            since_us: st.since_us + if b - 1 < cue.beats@.len() {
                cue.beats@[b - 1].length_us as int
            } else {
                0int
            },
            ..st
        }
    }
}

/// Whether a run of events carries a timecode-set event.
pub open spec fn has_timecode_set(events: Seq<Event>) -> bool
    decreases events.len(),
{
    if events.len() == 0 {
        false
    } else {
        has_timecode_set(events.drop_last()) || events.last().description is TimecodeSet
    }
}

/// The instant a timecode seek state stands for, at frame start.
pub open spec fn tc_state_instant(st: TcSeekState, rate: u16) -> TimecodeInstant {
    TimecodeInstant { h: st.h, m: st.m, s: st.s, f: st.f, frame_progress: 0, frame_rate: rate }
}

/// The linear-timecode source's state.
pub struct TimecodeCore {
    pub active: bool,
    pub drop_frame: bool,
    pub color_framing: bool,
    pub external_clock: bool,
    pub current_time: TimecodeInstant,
    pub ring: Vec<i32>,
}

impl TimecodeCore {
    /// Well-formed: a supported frame rate, a normalized instant, a ring
    /// of two frames at any supported rate.
    pub open spec fn wf(self) -> bool {
        &&& (self.current_time.frame_rate == 24 || self.current_time.frame_rate == 25
            || self.current_time.frame_rate == 30)
        &&& self.current_time.wf()
        &&& self.ring@.len() == RING_SIZE
    }

    /// The source's frame rate.
    pub open spec fn rate(self) -> u16 {
        self.current_time.frame_rate
    }

    /// An inactive source at the given rate with a silent ring.
    pub fn new(frame_rate: u16) -> (r: TimecodeCore)
        requires
            frame_rate == 24 || frame_rate == 25 || frame_rate == 30,
        ensures
            r.wf(),
            !r.active,
            r.rate() == frame_rate,
            r.current_time.total_units() == 0,
    {
        let mut ring: Vec<i32> = Vec::new();
        let mut i: usize = 0;
        while i < RING_SIZE
            invariant
                i <= RING_SIZE,
                ring@.len() == i,
            decreases RING_SIZE - i,
        {
            ring.push(0);
            i += 1;
        }
        TimecodeCore {
            active: false,
            drop_frame: false,
            color_framing: false,
            external_clock: false,
            current_time: TimecodeInstant::new(frame_rate),
            ring,
        }
    }

    /// Pre-fire handling: a timecode-set event rebases the running
    /// timecode at the start of its frame and starts the source; an hour
    /// above 24 is the stop sentinel and disables the source instead.
    /// Every other event is inert.
    pub fn event_will_occur(&mut self, event: &Event)
        requires
            old(self).wf(),
        ensures
            final(self).wf(),
            final(self).rate() == old(self).rate(),
            final(self).ring@ == old(self).ring@,
            match event.description {
                EventDescription::TimecodeSet { h, m, s, f } => {
                    &&& final(self).current_time.h == h
                    &&& final(self).current_time.m == m as int % 60
                    &&& final(self).current_time.s == s as int % 60
                    &&& final(self).current_time.f == f as int % (old(self).rate() as int)
                    &&& final(self).current_time.frame_progress == 0
                    &&& final(self).active == (h <= 24)
                },
                _ => *final(self) == *old(self),
            },
    {
        if let EventDescription::TimecodeSet { h, m, s, f } = event.description {
            self.current_time.set_time(h, m, s, f);
            self.current_time.frame_progress = 0;
            self.active = h <= 24;
        }
    }

    /// Reconstruct the timecode at a beat: walk the cue's timecode-set
    /// events up to it, then advance by the microseconds elapsed since
    /// the last one (stopping just short of the hour field's range).
    pub fn calculate_time_at_beat(&self, cue: &Cue, beat_idx: u16) -> (r: TimecodeInstant)
        requires
            self.wf(),
            cue.wf(),
        ensures
            r.wf(),
            r.frame_rate == self.rate(),
            ({
                let st = tc_walk(*cue, self.rate(), beat_idx as int);
                let base = tc_state_instant(st, self.rate()).total_units();
                let add = TimecodeInstant::us_to_units(st.since_us, self.rate() as int);
                r.total_units() == if base + add < TimecodeInstant::units_limit(self.rate()) {
                    base + add
                } else {
                    TimecodeInstant::units_limit(self.rate()) - 1
                }
            }),
    {
        let rate = self.current_time.frame_rate;
        let mut h: u16 = 0;
        let mut m: u16 = 0;
        let mut s: u16 = 0;
        let mut f: u16 = 0;
        let mut since_us: u64 = 0;
        let mut i: u16 = 0;
        while i < beat_idx
            invariant
                cue.wf(),
                rate == self.rate(),
                self.wf(),
                i <= beat_idx,
                m < 60,
                s < 60,
                f < rate,
                ({
                    let st = tc_walk(*cue, rate, i as int);
                    &&& h == st.h
                    &&& m == st.m
                    &&& s == st.s
                    &&& f == st.f
                    &&& since_us as int == st.since_us
                }),
                since_us <= (i as int) * 0x1_0000_0000,
            decreases beat_idx - i,
        {
            let events = cue.events.events_at(i);
            let ghost st0 = tc_walk(*cue, rate, i as int);
            let mut j: usize = 0;
            while j < events.len()
                invariant
                    rate == self.rate(),
                    self.wf(),
                    j <= events@.len(),
                    m < 60,
                    s < 60,
                    f < rate,
                    ({
                        let st = apply_tc_events(st0, events@.subrange(0, j as int), rate);
                        &&& h == st.h
                        &&& m == st.m
                        &&& s == st.s
                        &&& f == st.f
                        &&& since_us as int == st.since_us
                    }),
                    since_us <= (i as int) * 0x1_0000_0000,
                decreases events@.len() - j,
            {
                proof {
                    let pre = events@.subrange(0, j + 1 as int);
                    assert(pre.drop_last() =~= events@.subrange(0, j as int));
                    assert(pre.last() == events@[j as int]);
                }
                if let EventDescription::TimecodeSet { h: eh, m: em, s: es, f: ef }
                    = events[j].description {
                    h = eh;
                    m = em % 60;
                    s = es % 60;
                    f = ef % rate;
                    since_us = 0;
                }
                j += 1;
            }
            proof {
                assert(events@.subrange(0, events@.len() as int) =~= events@);
            }
            let len_here: u32 = match cue.get_beat(i) {
                Some(beat) => beat.length_us,
                None => 0,
            };
            since_us = since_us + len_here as u64;
            i += 1;
        }
        let mut r = TimecodeInstant { h, m, s, f, frame_progress: 0, frame_rate: rate };
        let add: u64 = r.units_of_us(since_us);
        proof {
            assert((since_us as int) * (rate as int) * 65536
                <= 0x1_0000_0000_0000int * 30 * 65536) by (nonlinear_arith)
                requires
                    0 <= since_us <= 0x1_0000_0000_0000u64,
                    0 < rate <= 30,
            ;
            vstd::arithmetic::div_mod::lemma_div_is_ordered(
                (since_us as int) * (rate as int) * 65536,
                0x1_0000_0000_0000int * 30 * 65536,
                1_000_000int,
            );
        }
        r.add_units_clamped(add);
        r
    }

    /// One realtime cycle. While the transport and the source both run,
    /// the timecode advances by the cycle's share of a frame; if that
    /// crossed into a new frame, the ring shifts left one frame and the
    /// new frame's waveform is rendered into the second half; the cycle's
    /// window of the ring is handed out. Otherwise the cycle is silent
    /// and nothing moves.
    pub fn send_buffer(&mut self, running: bool, frame_size: usize, sample_rate: usize) -> (r:
        Option<Vec<i32>>)
        requires
            old(self).wf(),
            sample_rate <= 1_000_000,
            (sample_rate as int) / (old(self).rate() as int) >= 160,
            2 * ((sample_rate as int) / (old(self).rate() as int)) <= RING_SIZE,
            frame_size <= (sample_rate as int) / (old(self).rate() as int),
        ensures
            final(self).wf(),
            final(self).rate() == old(self).rate(),
            final(self).drop_frame == old(self).drop_frame,
            final(self).color_framing == old(self).color_framing,
            final(self).external_clock == old(self).external_clock,
            final(self).active == old(self).active,
            !(running && old(self).active) ==> *final(self) == *old(self) && r is None,
            running && old(self).active ==> ({
                let spf = (sample_rate as int) / (old(self).rate() as int);
                let spb = spf / 80;
                let p = (frame_size as int) * (old(self).rate() as int) * 65536
                    / (sample_rate as int);
                let lim = TimecodeInstant::units_limit(old(self).rate());
                let changed = !(final(self).current_time.h == old(self).current_time.h
                    && final(self).current_time.m == old(self).current_time.m
                    && final(self).current_time.s == old(self).current_time.s
                    && final(self).current_time.f == old(self).current_time.f);
                let sub = (final(self).current_time.frame_progress as int) * spf / 65536;
                &&& final(self).current_time.total_units() == if old(
                    self,
                ).current_time.total_units() + p < lim {
                    old(self).current_time.total_units() + p
                } else {
                    lim - 1
                }
                &&& !changed ==> final(self).ring@ == old(self).ring@
                &&& changed ==> {
                    &&& forall|k: int| 0 <= k < spf ==> final(self).ring@[k] == old(
                        self,
                    ).ring@[spf + k]
                    &&& forall|k: int| 0 <= k < spf ==> (#[trigger] final(self).ring@[spf
                        + k]) as int == rendered_frame(
                        final(self).current_time,
                        old(self).drop_frame,
                        old(self).color_framing,
                        old(self).external_clock,
                        spb,
                        spf,
                    )[k]
                    &&& forall|k: int| 2 * spf <= k < RING_SIZE ==> final(self).ring@[k]
                        == old(self).ring@[k]
                }
                &&& r matches Some(w) && w@ == final(self).ring@.subrange(sub, sub
                    + frame_size)
            }),
    {
        if !(running && self.active) {
            return None;
        }
        let rate: u16 = self.current_time.frame_rate;
        proof {
            if sample_rate == 0 {
                assert((sample_rate as int) / (rate as int) == 0);
            }
        }
        let spf: usize = sample_rate / rate as usize;
        let spb: usize = spf / 80;
        proof {
            assert((frame_size as int) * (rate as int) * 65536 <= 4096int * 30 * 65536)
                by (nonlinear_arith)
                requires
                    0 <= frame_size <= 4096,
                    0 < rate <= 30,
            ;
        }
        let p: u64 = (frame_size as u64) * (rate as u64) * 65536 / (sample_rate as u64);
        let before_h = self.current_time.h;
        let before_m = self.current_time.m;
        let before_s = self.current_time.s;
        let before_f = self.current_time.f;
        proof {
            vstd::arithmetic::div_mod::lemma_div_is_ordered(
                (frame_size as int) * (rate as int) * 65536,
                4096int * 30 * 65536,
                sample_rate as int,
            );
            vstd::arithmetic::div_mod::lemma_div_pos_is_pos(
                (frame_size as int) * (rate as int) * 65536,
                sample_rate as int,
            );
        }
        self.current_time.add_units_clamped(p);
        let changed = !(self.current_time.h == before_h && self.current_time.m == before_m
            && self.current_time.s == before_s && self.current_time.f == before_f);
        if changed {
            let ghost mid_ring = self.ring@;
            let ghost t_now = self.current_time;
            let ghost me = *self;
            let mut k: usize = 0;
            while k < spf
                invariant
                    2 * spf <= RING_SIZE,
                    self.ring@.len() == RING_SIZE,
                    self.current_time == t_now,
                    self.current_time.wf(),
                    self.active == me.active,
                    self.drop_frame == me.drop_frame,
                    self.color_framing == me.color_framing,
                    self.external_clock == me.external_clock,
                    k <= spf,
                    forall|j: int| 0 <= j < k ==> self.ring@[j] == mid_ring[spf + j],
                    forall|j: int| k <= j < RING_SIZE ==> self.ring@[j] == mid_ring[j],
                decreases spf - k,
            {
                let v: i32 = self.ring[spf + k];
                self.ring.set(k, v);
                k += 1;
            }
            let bits: u128 = generate_smpte_frame_bits(
                &self.current_time,
                self.drop_frame,
                self.color_framing,
                self.external_clock,
            );
            let pol: Vec<i32> = generate_smpte_frame_buffer(bits, spb);
            proof {
                assert(pol@.map_values(|v: i32| v as int) =~= biphase_seq(bits, spb as int));
                assert(bits == smpte_word(
                    self.current_time,
                    self.drop_frame,
                    self.color_framing,
                    self.external_clock,
                ));
            }
            let sm: Vec<i32> = smooth_triangular(&pol);
            let ghost shifted = self.ring@;
            let ghost frame = rendered_frame(
                self.current_time,
                self.drop_frame,
                self.color_framing,
                self.external_clock,
                spb as int,
                spf as int,
            );
            let mut k2: usize = 0;
            while k2 < spf
                invariant
                    2 * spf <= RING_SIZE,
                    self.ring@.len() == RING_SIZE,
                    self.current_time == t_now,
                    self.current_time.wf(),
                    self.active == me.active,
                    self.drop_frame == me.drop_frame,
                    self.color_framing == me.color_framing,
                    self.external_clock == me.external_clock,
                    k2 <= spf,
                    80 * spb <= spf,
                    sm@.len() == 80 * spb,
                    frame == rendered_frame(
                        self.current_time,
                        self.drop_frame,
                        self.color_framing,
                        self.external_clock,
                        spb as int,
                        spf as int,
                    ),
                    frame.len() == spf,
                    forall|j: int| 0 <= j < sm@.len() ==> (#[trigger] sm@[j]) as int
                        == frame[j],
                    forall|j: int| 80 * spb <= j < spf ==> frame[j] == 0,
                    forall|j: int| 0 <= j < k2 ==> (#[trigger] self.ring@[spf + j]) as int
                        == frame[j],
                    forall|j: int| 0 <= j < spf ==> self.ring@[j] == shifted[j],
                    forall|j: int| spf + k2 <= j < RING_SIZE ==> self.ring@[j] == shifted[j],
                decreases spf - k2,
            {
                let v: i32 = if k2 < sm.len() {
                    sm[k2]
                } else {
                    0
                };
                self.ring.set(spf + k2, v);
                k2 += 1;
            }
            proof {
                assert forall|j: int| 0 <= j < spf implies self.ring@[j] == old(
                    self,
                ).ring@[spf + j] by {
                    assert(self.ring@[j] == shifted[j]);
                    assert(shifted[j] == mid_ring[spf + j]);
                }
                assert forall|j: int| 2 * spf <= j < RING_SIZE implies self.ring@[j] == old(
                    self,
                ).ring@[j] by {
                    assert(self.ring@[j] == shifted[j]);
                    assert(shifted[j] == mid_ring[j]);
                }
            }
        }
        proof {
            assert((self.current_time.frame_progress as int) * (spf as int)
                <= 65535int * 4096) by (nonlinear_arith)
                requires
                    self.current_time.frame_progress <= 65535,
                    0 <= spf <= 4096,
            ;
        }
        let sub64: u64 = (self.current_time.frame_progress as u64) * (spf as u64) / 65536;
        proof {
            assert((self.current_time.frame_progress as int) * (spf as int) / 65536
                < spf as int) by (nonlinear_arith)
                requires
                    self.current_time.frame_progress < 65536,
                    0 < spf,
            ;
            assert((self.current_time.frame_progress as int) * (spf as int) / 65536 >= 0)
                by (nonlinear_arith)
                requires
                    self.current_time.frame_progress >= 0,
                    0 < spf,
            ;
        }
        let sub: usize = sub64 as usize;
        let mut window: Vec<i32> = Vec::new();
        let mut k3: usize = 0;
        while k3 < frame_size
            invariant
                self.ring@.len() == RING_SIZE,
                sub + frame_size <= RING_SIZE,
                k3 <= frame_size,
                window@.len() == k3,
                forall|j: int| 0 <= j < k3 ==> window@[j] == self.ring@[sub + j],
            decreases frame_size - k3,
        {
            window.push(self.ring[sub + k3]);
            k3 += 1;
        }
        proof {
            assert(window@ =~= self.ring@.subrange(sub as int, sub + frame_size));
        }
        Some(window)
    }

    /// Apply a transport command. Zero rewinds the timecode and adopts a
    /// timecode-set event standing at beat zero; Stop and Start flip the
    /// source; Jump re-seats the timecode at the target beat; Seek does
    /// the same and then backs up by the time still left to the next
    /// beat. Every other action leaves the source alone.
    pub fn command(&mut self, cue: &Cue, us_to_next_beat: u32, action: ControlAction)
        requires
            old(self).wf(),
            cue.wf(),
        ensures
            final(self).wf(),
            final(self).rate() == old(self).rate(),
            final(self).ring@ == old(self).ring@,
            match action {
                ControlAction::TransportStop => final(self).active == false && final(self).current_time == old(self).current_time,
                ControlAction::TransportStart => final(self).active == true && final(self).current_time == old(self).current_time,
                ControlAction::TransportZero => ({
                    let st = apply_tc_events(
                        tc_seek_init(),
                        events_at_spec(cue.events@, 0),
                        old(self).rate(),
                    );
                    &&& final(self).current_time.h == st.h
                    &&& final(self).current_time.m == st.m
                    &&& final(self).current_time.s == st.s
                    &&& final(self).current_time.f == st.f
                    &&& final(self).current_time.frame_progress == 0
                    &&& final(self).active == (old(self).active || has_timecode_set(
                        events_at_spec(cue.events@, 0),
                    ))
                }),
                ControlAction::TransportJumpBeat(b) => ({
                    let st = tc_walk(*cue, old(self).rate(), b as int);
                    let base = tc_state_instant(st, old(self).rate()).total_units();
                    let add = TimecodeInstant::us_to_units(st.since_us, old(self).rate() as int);
                    &&& final(self).active == old(self).active
                    &&& final(self).current_time.total_units() == if base + add
                        < TimecodeInstant::units_limit(old(self).rate()) {
                        base + add
                    } else {
                        TimecodeInstant::units_limit(old(self).rate()) - 1
                    }
                }),
                ControlAction::TransportSeekBeat(b) => ({
                    let st = tc_walk(*cue, old(self).rate(), b as int);
                    let base = tc_state_instant(st, old(self).rate()).total_units();
                    let add = TimecodeInstant::us_to_units(st.since_us, old(self).rate() as int);
                    let seated = if base + add < TimecodeInstant::units_limit(old(self).rate()) {
                        base + add
                    } else {
                        TimecodeInstant::units_limit(old(self).rate()) - 1
                    };
                    let back = TimecodeInstant::us_to_units(
                        us_to_next_beat as int,
                        old(self).rate() as int,
                    );
                    &&& final(self).active == old(self).active
                    &&& final(self).current_time.total_units() == if seated >= back {
                        seated - back
                    } else {
                        0int
                    }
                }),
                _ => *final(self) == *old(self),
            },
    {
        match action {
            ControlAction::TransportStop => {
                self.active = false;
            }
            ControlAction::TransportStart => {
                self.active = true;
            }
            ControlAction::TransportZero => {
                self.current_time.set_time(0, 0, 0, 0);
                self.current_time.frame_progress = 0;
                let events = cue.events.events_at(0);
                let ghost st0 = tc_seek_init();
                let rate = self.current_time.frame_rate;
                let mut j: usize = 0;
                while j < events.len()
                    invariant
                        self.wf(),
                        rate == self.rate(),
                        rate == old(self).rate(),
                        self.ring@ == old(self).ring@,
                        j <= events@.len(),
                        ({
                            let st = apply_tc_events(st0, events@.subrange(0, j as int), rate);
                            &&& self.current_time.h == st.h
                            &&& self.current_time.m == st.m
                            &&& self.current_time.s == st.s
                            &&& self.current_time.f == st.f
                            &&& self.current_time.frame_progress == 0
                        }),
                        self.active == (old(self).active || has_timecode_set(
                            events@.subrange(0, j as int),
                        )),
                    decreases events@.len() - j,
                {
                    proof {
                        let pre = events@.subrange(0, j + 1 as int);
                        assert(pre.drop_last() =~= events@.subrange(0, j as int));
                        assert(pre.last() == events@[j as int]);
                    }
                    if let EventDescription::TimecodeSet { h, m, s, f } = events[j].description {
                        self.current_time.set_time(h, m, s, f);
                        self.current_time.frame_progress = 0;
                        self.active = true;
                    }
                    j += 1;
                }
                proof {
                    assert(events@.subrange(0, events@.len() as int) =~= events@);
                }
            }
            ControlAction::TransportJumpBeat(b) => {
                self.current_time = self.calculate_time_at_beat(cue, b);
            }
            ControlAction::TransportSeekBeat(b) => {
                self.current_time = self.calculate_time_at_beat(cue, b);
                self.current_time.sub_us(us_to_next_beat as u64);
            }
            _ => {}
        }
    }
}

} // verus!
