//! Data model: a show is an ordered list of cues; a cue is a sequence of
//! beats (each with its own length in microseconds) and a table of up to 64
//! beat-addressed events that start or stop clip playback, set the running
//! timecode, or jump the transport.

use vstd::prelude::*;
use crate::vlt::{JumpRequirement, VltAction};

verus! {

/// Number of event slots a cue holds.
pub const MAX_EVENTS: usize = 64;

/// One metrical tick. `count` is the 1-based position within the bar
/// (1 means downbeat); `length_us` is the beat's duration in microseconds.
#[derive(Clone, Copy, Debug, PartialEq, Eq, Structural)]
pub struct Beat {
    pub count: u16,
    pub bar_number: u16,
    pub length_us: u32,
}

/// What an event does when the transport reaches its beat.
#[derive(Clone, Copy, Debug, PartialEq, Eq, Structural)]
pub enum EventDescription {
    /// Start the clip `clip_idx` on `channel`. A negative `sample_offset`
    /// pre-rolls silence until the offset reaches zero.
    PlaybackStart { channel: u16, clip_idx: u16, sample_offset: i32 },
    /// Stop playback on `channel`.
    PlaybackStop { channel: u16 },
    /// Set the running timecode to the given instant. An hour above 24 is
    /// the stop-timecode sentinel.
    TimecodeSet { h: u16, m: u16, s: u16, f: u16 },
    /// Conditionally move `next_beat_idx` to `destination`; `when_jumped`
    /// and `when_passed` are VLT actions applied afterwards.
    Jump {
        destination: u16,
        requirement: JumpRequirement,
        when_jumped: VltAction,
        when_passed: VltAction,
    },
}

/// A beat-addressed event. `location` is a beat index within the cue.
#[derive(Clone, Copy, Debug, PartialEq, Eq, Structural)]
pub struct Event {
    pub location: u16,
    pub description: EventDescription,
}

impl Event {
    /// Pair a location with a description.
    pub fn new(location: u16, description: EventDescription) -> (r: Event)
        ensures
            r.location == location,
            r.description == description,
    {
        Event { location, description }
    }
}

/// A cue's event table: 64 slots, each empty or holding one event.
#[derive(Debug, PartialEq, Eq)]
pub struct EventTable {
    slots: Vec<Option<Event>>,
}

impl Clone for EventTable {
    /// A clone holds the same 64 slots.
    fn clone(&self) -> (r: EventTable)
        ensures
            r@ == self@,
    {
        let r = EventTable { slots: self.slots.clone() };
        proof {
            assert(r@ =~= self@);
        }
        r
    }
}

/// The events of `s` located at beat `loc`, in slot order.
pub open spec fn events_at_spec(s: Seq<Option<Event>>, loc: u16) -> Seq<Event>
    decreases s.len(),
{
    if s.len() == 0 {
        Seq::empty()
    } else {
        events_at_spec(s.drop_last(), loc) + match s.last() {
            Some(e) => if e.location == loc {
                seq![e]
            } else {
                Seq::empty()
            },
            None => Seq::empty(),
        }
    }
}

/// How many playback-start events of `s` address channel `channel`.
pub open spec fn count_channel_starts_spec(s: Seq<Option<Event>>, channel: u16) -> int
    decreases s.len(),
{
    if s.len() == 0 {
        0int
    } else {
        count_channel_starts_spec(s.drop_last(), channel) + match s.last() {
            Some(e) => match e.description {
                EventDescription::PlaybackStart { channel: c, .. } => if c == channel {
                    1int
                } else {
                    0int
                },
                _ => 0int,
            },
            None => 0int,
        }
    }
}

impl EventTable {
    /// The table as a sequence of 64 optional events.
    pub closed spec fn view(self) -> Seq<Option<Event>> {
        self.slots@
    }

    /// Well-formed: exactly `MAX_EVENTS` slots.
    pub open spec fn wf(self) -> bool {
        self@.len() == MAX_EVENTS
    }

    /// An empty table.
    pub fn new() -> (r: EventTable)
        ensures
            r.wf(),
            forall|i: int| 0 <= i < MAX_EVENTS ==> r@[i] is None,
    {
        let mut slots: Vec<Option<Event>> = Vec::new();
        let mut i: usize = 0;
        while i < MAX_EVENTS
            invariant
                i <= MAX_EVENTS,
                slots.len() == i,
                forall|j: int| 0 <= j < i ==> slots@[j] is None,
            decreases MAX_EVENTS - i,
        {
            slots.push(None);
            i += 1;
        }
        EventTable { slots }
    }

    /// A table from a full list of slots.
    pub fn from_slots(slots: Vec<Option<Event>>) -> (r: EventTable)
        requires
            slots@.len() == MAX_EVENTS,
        ensures
            r.wf(),
            r@ == slots@,
    {
        EventTable { slots }
    }

    /// Put an event in a slot, replacing what was there.
    pub fn set(&mut self, idx: usize, event: Event)
        requires
            old(self).wf(),
            idx < MAX_EVENTS,
        ensures
            final(self).wf(),
            final(self)@ == old(self)@.update(idx as int, Some(event)),
    {
        self.slots.set(idx, Some(event));
    }

    /// Read a slot.
    pub fn get(&self, idx: usize) -> (r: Option<Event>)
        requires
            self.wf(),
            idx < MAX_EVENTS,
        ensures
            r == self@[idx as int],
    {
        self.slots[idx]
    }

    /// The events located at beat `loc`, in slot order.
    pub fn events_at(&self, loc: u16) -> (r: Vec<Event>)
        requires
            self.wf(),
        ensures
            r@ == events_at_spec(self@, loc),
    {
        let mut r: Vec<Event> = Vec::new();
        let mut i: usize = 0;
        while i < MAX_EVENTS
            invariant
                self.wf(),
                i <= MAX_EVENTS,
                r@ == events_at_spec(self@.subrange(0, i as int), loc),
            decreases MAX_EVENTS - i,
        {
            proof {
                assert(self@.subrange(0, i + 1 as int).drop_last()
                    =~= self@.subrange(0, i as int));
            }
            if let Some(e) = self.slots[i] {
                if e.location == loc {
                    r.push(e);
                }
            }
            i += 1;
        }
        proof {
            assert(self@.subrange(0, MAX_EVENTS as int) =~= self@);
        }
        r
    }

    /// Count the playback-start events addressed to a channel.
    pub fn count_channel_starts(&self, channel: u16) -> (r: usize)
        requires
            self.wf(),
        ensures
            r as int == count_channel_starts_spec(self@, channel),
    {
        let mut r: usize = 0;
        let mut i: usize = 0;
        while i < MAX_EVENTS
            invariant
                self.wf(),
                i <= MAX_EVENTS,
                r <= i,
                r as int == count_channel_starts_spec(self@.subrange(0, i as int), channel),
            decreases MAX_EVENTS - i,
        {
            proof {
                assert(self@.subrange(0, i + 1 as int).drop_last()
                    =~= self@.subrange(0, i as int));
            }
            if let Some(e) = self.slots[i] {
                if let EventDescription::PlaybackStart { channel: c, .. } = e.description {
                    if c == channel {
                        r += 1;
                    }
                }
            }
            i += 1;
        }
        proof {
            assert(self@.subrange(0, MAX_EVENTS as int) =~= self@);
        }
        r
    }
}

/// A cue: identification, a beat table and an event table.
#[derive(Debug, PartialEq, Eq)]
pub struct Cue {
    pub human_ident: Vec<u8>,
    pub name: Vec<u8>,
    pub beats: Vec<Beat>,
    pub events: EventTable,
}

impl Clone for Cue {
    /// A clone carries the same identification, beats and events.
    fn clone(&self) -> (r: Cue)
        ensures
            r.eqv(*self),
    {
        let r = Cue {
            human_ident: self.human_ident.clone(),
            name: self.name.clone(),
            beats: self.beats.clone(),
            events: self.events.clone(),
        };
        proof {
            assert(r.human_ident@ =~= self.human_ident@);
            assert(r.name@ =~= self.name@);
            assert(r.beats@ =~= self.beats@);
        }
        r
    }
}

impl Cue {
    /// Value equality: the same identification, beats and events.
    pub open spec fn eqv(self, other: Cue) -> bool {
        &&& self.human_ident@ == other.human_ident@
        &&& self.name@ == other.name@
        &&& self.beats@ == other.beats@
        &&& self.events@ == other.events@
    }
    /// Well-formed: a full event table and beat indices that fit in `u16`.
    pub open spec fn wf(self) -> bool {
        &&& self.events.wf()
        &&& self.beats.len() < 65535
    }

    /// A cue with no beats and no events.
    pub fn empty() -> (r: Cue)
        ensures
            r.wf(),
            r.beats.len() == 0,
            forall|i: int| 0 <= i < MAX_EVENTS ==> r.events@[i] is None,
    {
        Cue {
            human_ident: Vec::new(),
            name: Vec::new(),
            beats: Vec::new(),
            events: EventTable::new(),
        }
    }

    /// The beat at an index, if the cue has one there.
    pub fn get_beat(&self, idx: u16) -> (r: Option<Beat>)
        ensures
            r == if (idx as int) < self.beats@.len() {
                Some(self.beats@[idx as int])
            } else {
                None::<Beat>
            },
    {
        if (idx as usize) < self.beats.len() {
            Some(self.beats[idx as usize])
        } else {
            None
        }
    }
}

/// A show: a name and an ordered list of cues.
#[derive(Debug, PartialEq, Eq)]
pub struct Show {
    pub name: Vec<u8>,
    pub cues: Vec<Cue>,
}

impl Clone for Show {
    /// A clone carries the same name and, cue for cue, the same content.
    fn clone(&self) -> (r: Show)
        ensures
            r.eqv(*self),
    {
        let r = Show { name: self.name.clone(), cues: self.cues.clone() };
        proof {
            assert(r.name@ =~= self.name@);
            assert(forall|i: int| 0 <= i < self.cues@.len()
                ==> #[trigger] r.cues@[i].eqv(self.cues@[i]));
        }
        r
    }
}

impl Show {
    /// Well-formed: every cue well-formed.
    pub open spec fn wf(self) -> bool {
        forall|i: int| 0 <= i < self.cues@.len() ==> #[trigger] self.cues@[i].wf()
    }

    /// Value equality: the same name and, cue for cue, the same content.
    pub open spec fn eqv(self, other: Show) -> bool {
        &&& self.name@ == other.name@
        &&& self.cues@.len() == other.cues@.len()
        &&& forall|i: int| 0 <= i < self.cues@.len()
            ==> #[trigger] self.cues@[i].eqv(other.cues@[i])
    }

    /// A show with no cues.
    pub fn empty() -> (r: Show)
        ensures
            r.wf(),
            r.cues.len() == 0,
    {
        Show { name: Vec::new(), cues: Vec::new() }
    }
}

} // verus!
