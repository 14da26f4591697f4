//! Metronome core: keeps the beat position against the audio clock,
//! advances beats on schedule, evaluates jump events against the VLT flag,
//! and says which click (downbeat or upbeat) a cycle should emit. The
//! click waveforms themselves are floating-point and live outside the core.

use vstd::prelude::*;
use crate::model::{Cue, Event, EventDescription};
use crate::state::{effective_beat_len, effective_len, BeatState};
use crate::vlt::{requirement_met, spec_requirement_met, VltAction};

verus! {

/// What the metronome emits for one cycle.
#[derive(Clone, Copy, Debug, PartialEq, Eq, Structural)]
pub enum MetronomeOut {
    /// No beat boundary crossed: silence.
    Silence,
    /// A beat fired; `downbeat` picks the click waveform.
    Click { downbeat: bool },
}

/// The metronome's state: beat position and the audio-clock time the
/// current beat started at (zero meaning "rebase on the next start").
#[derive(Clone, Copy, Debug, PartialEq, Eq, Structural)]
pub struct MetronomeCore {
    pub state: BeatState,
    pub last_beat_time: u64,
}

impl MetronomeCore {
    /// The audio-clock time the current beat is scheduled to end at.
    pub open spec fn spec_scheduled(self, cue: Cue, playrate_percent: u16) -> int {
        self.last_beat_time + effective_beat_len(
            if (self.state.beat_idx as int) < cue.beats@.len() {
                cue.beats@[self.state.beat_idx as int].length_us
            } else {
                0u32
            },
            playrate_percent,
        )
    }

    /// Fresh metronome at beat zero.
    pub fn new() -> (r: MetronomeCore)
        ensures
            r.state.beat_idx == 0,
            r.state.next_beat_idx == 0,
            r.state.requested_vlt_action == VltAction::Keep,
            r.last_beat_time == 0,
    {
        MetronomeCore { state: BeatState::new(), last_beat_time: 0 }
    }

    /// What one transport command does to the metronome: Zero resets
    /// both beat indices and the beat clock; Stop clears the beat clock
    /// so the next start rebases; Seek retargets the next beat; Jump
    /// retargets and clears the clock. Every other action leaves the
    /// metronome alone.
    pub open spec fn spec_command(
        m: MetronomeCore,
        action: crate::protocol::ControlAction,
    ) -> MetronomeCore {
        match action {
            crate::protocol::ControlAction::TransportZero => MetronomeCore {
                state: BeatState { beat_idx: 0, next_beat_idx: 0, ..m.state },
                last_beat_time: 0,
            },
            crate::protocol::ControlAction::TransportStop => MetronomeCore {
                last_beat_time: 0,
                ..m
            },
            crate::protocol::ControlAction::TransportSeekBeat(idx) => MetronomeCore {
                state: BeatState { next_beat_idx: idx, ..m.state },
                ..m
            },
            crate::protocol::ControlAction::TransportJumpBeat(idx) => MetronomeCore {
                state: BeatState { next_beat_idx: idx, ..m.state },
                last_beat_time: 0,
            },
            _ => m,
        }
    }

    /// Apply a transport command, exactly as `spec_command` says.
    pub fn command(&mut self, action: crate::protocol::ControlAction)
        ensures
            *final(self) == Self::spec_command(*old(self), action),
    {
        match action {
            crate::protocol::ControlAction::TransportZero => {
                self.state.beat_idx = 0;
                self.state.next_beat_idx = 0;
                self.last_beat_time = 0;
            }
            crate::protocol::ControlAction::TransportStop => {
                self.last_beat_time = 0;
            }
            crate::protocol::ControlAction::TransportSeekBeat(idx) => {
                self.state.next_beat_idx = idx;
            }
            crate::protocol::ControlAction::TransportJumpBeat(idx) => {
                self.state.next_beat_idx = idx;
                self.last_beat_time = 0;
            }
            _ => {}
        }
    }

    /// React to an event the beat just passed. A jump whose requirement is
    /// met under the VLT flag retargets `next_beat_idx` and requests its
    /// `when_jumped` action; one whose requirement fails requests
    /// `when_passed`. Every other event leaves the metronome alone.
    pub fn event_occured(&mut self, vlt: bool, event: &Event)
        ensures
            *final(self) == match event.description {
                EventDescription::Jump {
                    destination,
                    requirement,
                    when_jumped,
                    when_passed,
                } => if spec_requirement_met(requirement, vlt) {
                    MetronomeCore {
                        state: BeatState {
                            next_beat_idx: destination,
                            requested_vlt_action: when_jumped,
                            ..old(self).state
                        },
                        ..*old(self)
                    }
                } else {
                    MetronomeCore {
                        state: BeatState {
                            requested_vlt_action: when_passed,
                            ..old(self).state
                        },
                        ..*old(self)
                    }
                },
                _ => *old(self),
            },
    {
        if let EventDescription::Jump { destination, requirement, when_jumped, when_passed }
            = event.description {
            if requirement_met(requirement, vlt) {
                self.state.next_beat_idx = destination;
                self.state.requested_vlt_action = when_jumped;
            } else {
                self.state.requested_vlt_action = when_passed;
            }
        }
    }

    /// Clear the pending VLT action once the processor has applied it.
    pub fn take_vlt_action(&mut self) -> (r: VltAction)
        ensures
            r == old(self).state.requested_vlt_action,
            *final(self) == (MetronomeCore {
                state: BeatState {
                    requested_vlt_action: VltAction::Keep,
                    ..old(self).state
                },
                ..*old(self)
            }),
    {
        let r = self.state.requested_vlt_action;
        self.state.requested_vlt_action = VltAction::Keep;
        r
    }

    /// Microseconds until the current beat is scheduled to end, zero
    /// when the moment has passed or no beat stands at the current
    /// index, saturating at `u32::MAX`.
    pub open spec fn spec_us_to_next(
        self,
        cue: Cue,
        jack_time: u64,
        playrate_percent: u16,
    ) -> int {
        if (self.state.beat_idx as int) < cue.beats@.len() {
            let sched = self.spec_scheduled(cue, playrate_percent);
            if sched > jack_time {
                if sched - jack_time > u32::MAX {
                    u32::MAX as int
                } else {
                    sched - jack_time
                }
            } else {
                0int
            }
        } else {
            0int
        }
    }

    /// Compute the time to the next beat, exactly as `spec_us_to_next`
    /// says.
    pub fn us_to_next(&self, cue: &Cue, jack_time: u64, playrate_percent: u16) -> (r: u32)
        requires
            0 < playrate_percent,
            self.last_beat_time < 0x4000_0000_0000_0000,
        ensures
            r as int == self.spec_us_to_next(*cue, jack_time, playrate_percent),
    {
        match cue.get_beat(self.state.beat_idx) {
            None => 0,
            Some(beat) => {
                let sched: u64 = self.last_beat_time + effective_len(
                    beat.length_us,
                    playrate_percent,
                );
                if sched > jack_time {
                    let diff: u64 = sched - jack_time;
                    if diff > u32::MAX as u64 {
                        u32::MAX
                    } else {
                        diff as u32
                    }
                } else {
                    0
                }
            }
        }
    }

    /// Whether one realtime cycle fires the next beat: the transport
    /// runs, a beat stands at `next_beat_idx`, and the audio clock has
    /// reached the scheduled end of the current beat.
    pub open spec fn spec_tick_fires(
        self,
        cue: Cue,
        running: bool,
        jack_time: u64,
        playrate_percent: u16,
    ) -> bool {
        running && (self.state.next_beat_idx as int) < cue.beats@.len() && jack_time
            >= self.spec_scheduled(cue, playrate_percent)
    }

    /// One realtime cycle. While the transport runs and a beat stands at
    /// `next_beat_idx`, the beat fires as soon as the audio clock reaches
    /// the scheduled end of the current beat: the position advances, the
    /// beat clock rebases to the schedule (or to the clock itself on the
    /// first tick), and the fired beat's click is emitted. Otherwise the
    /// cycle is silent and nothing moves.
    pub fn tick(&mut self, cue: &Cue, running: bool, jack_time: u64, playrate_percent: u16)
        -> (r: MetronomeOut)
        requires
            cue.wf(),
            0 < playrate_percent,
            old(self).last_beat_time < 0x4000_0000_0000_0000,
            jack_time < 0x4000_0000_0000_0000,
        ensures
            ({
                let fired = old(self).spec_tick_fires(*cue, running, jack_time,
                    playrate_percent);
                &&& !fired ==> *final(self) == *old(self) && r == MetronomeOut::Silence
                &&& fired ==> {
                    let new_idx = old(self).state.next_beat_idx;
                    &&& final(self).state.beat_idx == new_idx
                    &&& final(self).state.next_beat_idx == new_idx + 1
                    &&& final(self).state.requested_vlt_action
                        == old(self).state.requested_vlt_action
                    &&& final(self).last_beat_time == if old(self).last_beat_time == 0 {
                        jack_time as int
                    } else {
                        old(self).spec_scheduled(*cue, playrate_percent)
                    }
                    &&& r == (MetronomeOut::Click {
                        downbeat: cue.beats@[new_idx as int].count == 1,
                    })
                }
            }),
            final(self).last_beat_time < 0x4000_0000_0000_0000,
    {
        if !running {
            return MetronomeOut::Silence;
        }
        if cue.get_beat(self.state.next_beat_idx).is_none() {
            return MetronomeOut::Silence;
        }
        let cur_len: u32 = match cue.get_beat(self.state.beat_idx) {
            Some(beat) => beat.length_us,
            None => 0,
        };
        let sched: u64 = self.last_beat_time + effective_len(cur_len, playrate_percent);
        if jack_time >= sched {
            let new_idx = self.state.next_beat_idx;
            self.state.beat_idx = new_idx;
            self.state.next_beat_idx = new_idx + 1;
            if self.last_beat_time == 0 {
                self.last_beat_time = jack_time;
            } else {
                self.last_beat_time = sched;
            }
            let beat = match cue.get_beat(new_idx) {
                Some(beat) => beat,
                None => crate::model::Beat { count: 0, bar_number: 0, length_us: 0 },
            };
            MetronomeOut::Click { downbeat: beat.count == 1 }
        } else {
            MetronomeOut::Silence
        }
    }
}

} // verus!
