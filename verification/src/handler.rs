//! Non-realtime loader side of playback: sizes each channel's publication
//! slots from the show (the most clips any single cue references on that
//! channel), plans which clips to decode when a cue is loaded, and hands
//! shared slots to the realtime devices. Decoding itself happens outside
//! the core; the plan here says exactly what to decode into which slot.

use vstd::prelude::*;
use vstd::seq_lib::group_to_multiset_ensures;
use crate::clipstore::ClipSlot;
use crate::model::{count_channel_starts_spec, Cue, Event, EventDescription, Show};
use crate::playback::PlaybackCore;

verus! {

/// The most distinct clips any single cue of `cues` references on
/// `channel`; how many slots that channel needs.
pub open spec fn max_clips_spec(cues: Seq<Cue>, channel: u16) -> int
    decreases cues.len(),
{
    if cues.len() == 0 {
        0int
    } else {
        let rest = max_clips_spec(cues.drop_last(), channel);
        let here = distinct_clips_spec(cues.last().events@, channel).len() as int;
        if here > rest {
            here
        } else {
            rest
        }
    }
}

/// The distinct clip indices the playback-start events of `s` reference on
/// `channel`, in order of first appearance.
pub open spec fn distinct_clips_spec(s: Seq<Option<Event>>, channel: u16) -> Seq<u16>
    decreases s.len(),
{
    if s.len() == 0 {
        Seq::empty()
    } else {
        let rest = distinct_clips_spec(s.drop_last(), channel);
        match s.last() {
            Some(e) => match e.description {
                EventDescription::PlaybackStart { channel: c, clip_idx, .. } => if c == channel
                    && !rest.contains(clip_idx) {
                    rest + seq![clip_idx]
                } else {
                    rest
                },
                _ => rest,
            },
            None => rest,
        }
    }
}

/// A sequence is sorted in non-decreasing order.
pub open spec fn sorted_u16(s: Seq<u16>) -> bool {
    forall|i: int, j: int| 0 <= i < j < s.len() ==> s[i] <= s[j]
}

/// Sort a list of clip indices ascending, by repeated extraction of the
/// least remaining element. Keeps exactly the same elements.
pub fn sort_u16(v: Vec<u16>) -> (r: Vec<u16>)
    ensures
        sorted_u16(r@),
        r@.to_multiset() == v@.to_multiset(),
{
    broadcast use group_to_multiset_ensures;

    let mut rest = v;
    let mut out: Vec<u16> = Vec::new();
    while rest.len() > 0
        invariant
            out@.to_multiset().add(rest@.to_multiset()) == v@.to_multiset(),
            sorted_u16(out@),
            forall|i: int, j: int| 0 <= i < out@.len() && 0 <= j < rest@.len() ==> out@[i]
                <= rest@[j],
        decreases rest.len(),
    {
        let mut min_idx: usize = 0;
        let mut k: usize = 1;
        while k < rest.len()
            invariant
                min_idx < rest@.len(),
                k <= rest@.len(),
                0 < rest@.len(),
                forall|i: int| 0 <= i < k ==> rest@[min_idx as int] <= rest@[i],
            decreases rest@.len() - k,
        {
            if rest[k] < rest[min_idx] {
                min_idx = k;
            }
            k += 1;
        }
        let ghost old_out = out@;
        let ghost old_rest = rest@;
        let m = rest.remove(min_idx);
        out.push(m);
        proof {
            old_rest.to_multiset_ensures();
            old_out.to_multiset_ensures();
            assert(old_rest.remove(min_idx as int).to_multiset()
                =~= old_rest.to_multiset().remove(m));
            assert(out@.to_multiset() =~= old_out.to_multiset().insert(m));
            assert(out@.to_multiset().add(rest@.to_multiset()) =~= v@.to_multiset());
            assert forall|j: int| 0 <= j < rest@.len() implies m <= rest@[j] by {
                if j < min_idx {
                    assert(rest@[j] == old_rest[j]);
                } else {
                    assert(rest@[j] == old_rest[j + 1]);
                }
            }
        }
    }
    out
}

/// The loader-side playback handler: one slot list per channel.
pub struct PlaybackHandler {
    pub num_channels: usize,
    pub clips: Vec<Vec<ClipSlot>>,
}

impl PlaybackHandler {
    /// Channel indices must fit in `u16`.
    pub open spec fn wf(self) -> bool {
        self.num_channels < 65536
    }

    /// A handler for `num_channels` channels, with no slots yet.
    pub fn new(num_channels: usize) -> (r: PlaybackHandler)
        requires
            num_channels < 65536,
        ensures
            r.wf(),
            r.num_channels == num_channels,
            r.clips@.len() == 0,
    {
        PlaybackHandler { num_channels, clips: Vec::new() }
    }

    /// How many playback-start events a cue has on a channel; zero for a
    /// channel index beyond the handler's range.
    pub fn num_channel_clips_in_cue(&self, cue: &Cue, channel: usize) -> (r: usize)
        requires
            self.wf(),
            cue.wf(),
        ensures
            r as int == if channel > self.num_channels {
                0int
            } else {
                count_channel_starts_spec(cue.events@, channel as u16)
            },
    {
        if channel > self.num_channels {
            return 0;
        }
        cue.events.count_channel_starts(channel as u16)
    }

    /// The distinct clips a cue references on a channel, in order of
    /// first appearance.
    pub fn distinct_clips_in(&self, cue: &Cue, channel: usize) -> (r: Vec<u16>)
        requires
            self.wf(),
            cue.wf(),
            channel < self.num_channels,
        ensures
            r@ == distinct_clips_spec(cue.events@, channel as u16),
    {
        let mut found: Vec<u16> = Vec::new();
        let mut i: usize = 0;
        while i < crate::model::MAX_EVENTS
            invariant
                cue.wf(),
                i <= crate::model::MAX_EVENTS,
                found@ == distinct_clips_spec(cue.events@.subrange(0, i as int), channel as u16),
            decreases crate::model::MAX_EVENTS - i,
        {
            proof {
                assert(cue.events@.subrange(0, i + 1 as int).drop_last()
                    =~= cue.events@.subrange(0, i as int));
            }
            if let Some(e) = cue.events.get(i) {
                if let EventDescription::PlaybackStart { channel: c, clip_idx, .. }
                    = e.description {
                    if c == channel as u16 && !contains_u16(&found, clip_idx) {
                        found.push(clip_idx);
                    }
                }
            }
            i += 1;
        }
        proof {
            assert(cue.events@.subrange(0, crate::model::MAX_EVENTS as int) =~= cue.events@);
        }
        found
    }

    /// Size every channel's slot list to the most distinct clips any
    /// single cue of the show references on that channel.
    pub fn load_show(&mut self, show: &Show)
        requires
            old(self).wf(),
            show.wf(),
        ensures
            final(self).wf(),
            final(self).num_channels == old(self).num_channels,
            final(self).clips@.len() == old(self).num_channels,
            forall|c: int| 0 <= c < old(self).num_channels
                ==> (#[trigger] final(self).clips@[c])@.len()
                    == max_clips_spec(show.cues@, c as u16),
    {
        self.clips = Vec::new();
        let mut channel: usize = 0;
        while channel < self.num_channels
            invariant
                self.wf(),
                self.num_channels == old(self).num_channels,
                show.wf(),
                channel <= self.num_channels,
                self.clips@.len() == channel,
                forall|c: int| 0 <= c < channel ==> #[trigger] self.clips@[c]@.len()
                    == max_clips_spec(show.cues@, c as u16),
            decreases self.num_channels - channel,
        {
            let mut needed: usize = 0;
            let mut i: usize = 0;
            while i < show.cues.len()
                invariant
                    self.wf(),
                    self.num_channels == old(self).num_channels,
                    show.wf(),
                    channel < self.num_channels,
                    i <= show.cues@.len(),
                    needed as int == max_clips_spec(show.cues@.subrange(0, i as int),
                        channel as u16),
                decreases show.cues@.len() - i,
            {
                proof {
                    assert(show.cues@.subrange(0, i + 1 as int).drop_last()
                        =~= show.cues@.subrange(0, i as int));
                    assert(show.cues@[i as int].wf());
                }
                let distinct = self.distinct_clips_in(&show.cues[i], channel);
                let here = distinct.len();
                if here > needed {
                    needed = here;
                }
                i += 1;
            }
            proof {
                assert(show.cues@.subrange(0, show.cues@.len() as int) =~= show.cues@);
            }
            let mut slots: Vec<ClipSlot> = Vec::new();
            let mut j: usize = 0;
            while j < needed
                invariant
                    j <= needed,
                    slots@.len() == j,
                decreases needed - j,
            {
                slots.push(ClipSlot::new());
                j += 1;
            }
            self.clips.push(slots);
            channel += 1;
        }
    }

    /// One disarmed realtime device per channel, each sharing its
    /// channel's publication slots with this handler.
    pub fn create_audio_sources(&self) -> (r: Vec<PlaybackCore>)
        requires
            self.wf(),
            self.clips@.len() == self.num_channels,
        ensures
            r@.len() == self.num_channels,
            forall|c: int| 0 <= c < self.num_channels ==> {
                &&& (#[trigger] r@[c]).channel_idx == c
                &&& !r@[c].active
                &&& r@[c].current_sample == 0
                &&& r@[c].current_clip == 0
                &&& r@[c].slots@.len() == self.clips@[c]@.len()
            },
    {
        let mut devices: Vec<PlaybackCore> = Vec::new();
        let mut channel: usize = 0;
        while channel < self.num_channels
            invariant
                self.wf(),
                self.clips@.len() == self.num_channels,
                channel <= self.num_channels,
                devices@.len() == channel,
                forall|c: int| 0 <= c < channel ==> {
                    &&& (#[trigger] devices@[c]).channel_idx == c
                    &&& !devices@[c].active
                    &&& devices@[c].current_sample == 0
                    &&& devices@[c].current_clip == 0
                    &&& devices@[c].slots@.len() == self.clips@[c]@.len()
                },
            decreases self.num_channels - channel,
        {
            let row = &self.clips[channel];
            let mut slots: Vec<ClipSlot> = Vec::new();
            let mut j: usize = 0;
            while j < row.len()
                invariant
                    j <= row@.len(),
                    slots@.len() == j,
                decreases row@.len() - j,
            {
                slots.push(row[j].share());
                j += 1;
            }
            devices.push(PlaybackCore::new(channel as u16, slots));
            channel += 1;
        }
        devices
    }

    /// The distinct clips a cue references on a channel, sorted ascending:
    /// the decode order for that channel when the cue is loaded. The clip
    /// at position `i` belongs in slot `i`.
    pub fn sorted_clips_for_channel(&self, cue: &Cue, channel: usize) -> (r: Vec<u16>)
        requires
            self.wf(),
            cue.wf(),
            channel < self.num_channels,
        ensures
            sorted_u16(r@),
            r@.to_multiset() == distinct_clips_spec(cue.events@, channel as u16).to_multiset(),
    {
        let found = self.distinct_clips_in(cue, channel);
        sort_u16(found)
    }

    /// Publish that slot `slot` of `channel` now holds `clip_idx` with
    /// `length` samples; reports whether the slot exists. Called by the
    /// loader after decoding, clip by clip along the sorted plan.
    pub fn publish_clip(&self, channel: usize, slot: usize, clip_idx: u16, length: u64) -> (r:
        bool)
        ensures
            r == (channel < self.clips@.len() && slot < self.clips@[channel as int]@.len()),
    {
        if channel < self.clips.len() && slot < self.clips[channel].len() {
            self.clips[channel][slot].publish(clip_idx as u64, length);
            true
        } else {
            false
        }
    }
}

/// Whether a list holds a value.
fn contains_u16(v: &Vec<u16>, x: u16) -> (r: bool)
    ensures
        r == v@.contains(x),
{
    let mut i: usize = 0;
    while i < v.len()
        invariant
            i <= v@.len(),
            forall|j: int| 0 <= j < i ==> v@[j] != x,
        decreases v@.len() - i,
    {
        if v[i] == x {
            proof {
                assert(v@.contains(x));
            }
            return true;
        }
        i += 1;
    }
    false
}

} // verus!
