//! The show file's binary form: big-endian fixed-width integers, length-
//! prefixed byte strings, a version word up front. Encoding and decoding
//! are both defined against one specification, and a show written then
//! read comes back exactly — the round-trip law closes the loop.

use vstd::prelude::*;
use crate::model::{Beat, Cue, Event, EventDescription, Show, MAX_EVENTS};
use crate::vlt::{JumpRequirement, VltAction};

verus! {

/// The format version this codec writes.
pub const SHOW_FORMAT_VERSION: u16 = 1;

/// Why a show file was rejected.
#[derive(Clone, Copy, Debug, PartialEq, Eq, Structural)]
pub enum DecodeError {
    /// The bytes are not a whole, well-formed show in this format.
    Malformed,
}

/// A cue reduced to the mathematical content of its fields.
pub struct CueV {
    pub ident: Seq<u8>,
    pub name: Seq<u8>,
    pub beats: Seq<Beat>,
    pub events: Seq<Option<Event>>,
}

/// A show reduced to the mathematical content of its fields.
pub struct ShowV {
    pub name: Seq<u8>,
    pub cues: Seq<CueV>,
}

/// A cue's mathematical content.
pub open spec fn cue_view(c: Cue) -> CueV {
    CueV { ident: c.human_ident@, name: c.name@, beats: c.beats@, events: c.events@ }
}

/// The cue views of a list of cues.
pub open spec fn cues_views(s: Seq<Cue>) -> Seq<CueV> {
    s.map_values(|c: Cue| cue_view(c))
}

/// A show's mathematical content.
pub open spec fn show_view(s: Show) -> ShowV {
    ShowV { name: s.name@, cues: cues_views(s.cues@) }
}

/// Content the format can carry: every count and length below 65536 and
/// a full event table per cue.
pub open spec fn cue_encodable(c: CueV) -> bool {
    &&& c.ident.len() < 65536
    &&& c.name.len() < 65536
    &&& c.beats.len() < 65535
    &&& c.events.len() == MAX_EVENTS
}

/// Content the format can carry.
pub open spec fn show_encodable(s: ShowV) -> bool {
    &&& s.name.len() < 65536
    &&& s.cues.len() < 65536
    &&& forall|i: int| 0 <= i < s.cues.len() ==> cue_encodable(#[trigger] s.cues[i])
}

// ---- encoding specification -------------------------------------------

pub open spec fn enc_u16(v: u16) -> Seq<u8> {
    seq![(v / 256) as u8, (v % 256) as u8]
}

pub open spec fn enc_u32(v: u32) -> Seq<u8> {
    seq![
        (v / 0x1000000) as u8,
        ((v / 0x10000) % 256) as u8,
        ((v / 256) % 256) as u8,
        (v % 256) as u8,
    ]
}

pub open spec fn enc_i32(v: i32) -> Seq<u8> {
    enc_u32(v as u32)
}

pub open spec fn enc_bytes(b: Seq<u8>) -> Seq<u8> {
    enc_u16(b.len() as u16) + b
}

pub open spec fn enc_beat(b: Beat) -> Seq<u8> {
    enc_u16(b.count) + enc_u16(b.bar_number) + enc_u32(b.length_us)
}

pub open spec fn enc_beats(s: Seq<Beat>) -> Seq<u8>
    decreases s.len(),
{
    if s.len() == 0 {
        Seq::empty()
    } else {
        enc_beat(s.first()) + enc_beats(s.drop_first())
    }
}

pub open spec fn enc_requirement(r: JumpRequirement) -> u8 {
    match r {
        JumpRequirement::Always => 0u8,
        JumpRequirement::VltOn => 1u8,
        JumpRequirement::VltOff => 2u8,
    }
}

pub open spec fn enc_vlt_action(a: VltAction) -> u8 {
    match a {
        VltAction::Keep => 0u8,
        VltAction::Toggle => 1u8,
        VltAction::SetOn => 2u8,
        VltAction::SetOff => 3u8,
    }
}

pub open spec fn enc_description(d: EventDescription) -> Seq<u8> {
    match d {
        EventDescription::PlaybackStart { channel, clip_idx, sample_offset } => seq![0u8]
            + enc_u16(channel) + enc_u16(clip_idx) + enc_i32(sample_offset),
        EventDescription::PlaybackStop { channel } => seq![1u8] + enc_u16(channel),
        EventDescription::TimecodeSet { h, m, s, f } => seq![2u8] + enc_u16(h) + enc_u16(m)
            + enc_u16(s) + enc_u16(f),
        EventDescription::Jump { destination, requirement, when_jumped, when_passed } => seq![
            3u8,
        ] + enc_u16(destination) + seq![
            enc_requirement(requirement),
            enc_vlt_action(when_jumped),
            enc_vlt_action(when_passed),
        ],
    }
}

pub open spec fn enc_slot(s: Option<Event>) -> Seq<u8> {
    match s {
        None => seq![0u8],
        Some(e) => seq![1u8] + enc_u16(e.location) + enc_description(e.description),
    }
}

pub open spec fn enc_slots(s: Seq<Option<Event>>) -> Seq<u8>
    decreases s.len(),
{
    if s.len() == 0 {
        Seq::empty()
    } else {
        enc_slot(s.first()) + enc_slots(s.drop_first())
    }
}

pub open spec fn enc_cue(c: CueV) -> Seq<u8> {
    enc_bytes(c.ident) + enc_bytes(c.name) + enc_u16(c.beats.len() as u16) + enc_beats(c.beats)
        + enc_slots(c.events)
}

pub open spec fn enc_cues(s: Seq<CueV>) -> Seq<u8>
    decreases s.len(),
{
    if s.len() == 0 {
        Seq::empty()
    } else {
        enc_cue(s.first()) + enc_cues(s.drop_first())
    }
}

pub open spec fn enc_show(s: ShowV) -> Seq<u8> {
    enc_u16(SHOW_FORMAT_VERSION) + enc_bytes(s.name) + enc_u16(s.cues.len() as u16) + enc_cues(
        s.cues,
    )
}

// ---- decoding specification -------------------------------------------

pub open spec fn dec_u8(b: Seq<u8>) -> Option<(u8, Seq<u8>)> {
    if b.len() >= 1 {
        Some((b[0], b.drop_first()))
    } else {
        None
    }
}

pub open spec fn dec_u16(b: Seq<u8>) -> Option<(u16, Seq<u8>)> {
    if b.len() >= 2 {
        Some((((b[0] as u16) * 256 + (b[1] as u16)) as u16, b.skip(2)))
    } else {
        None
    }
}

pub open spec fn dec_u32(b: Seq<u8>) -> Option<(u32, Seq<u8>)> {
    if b.len() >= 4 {
        Some(
            (
                ((b[0] as u32) * 0x1000000 + (b[1] as u32) * 0x10000 + (b[2] as u32) * 256 + (
                b[3] as u32)) as u32,
                b.skip(4),
            ),
        )
    } else {
        None
    }
}

pub open spec fn dec_i32(b: Seq<u8>) -> Option<(i32, Seq<u8>)> {
    match dec_u32(b) {
        Some((v, rest)) => Some((v as i32, rest)),
        None => None,
    }
}

pub open spec fn dec_bytes(b: Seq<u8>) -> Option<(Seq<u8>, Seq<u8>)> {
    match dec_u16(b) {
        Some((n, rest)) => if rest.len() >= n {
            Some((rest.take(n as int), rest.skip(n as int)))
        } else {
            None
        },
        None => None,
    }
}

pub open spec fn dec_beat(b: Seq<u8>) -> Option<(Beat, Seq<u8>)> {
    match dec_u16(b) {
        Some((count, r1)) => match dec_u16(r1) {
            Some((bar_number, r2)) => match dec_u32(r2) {
                Some((length_us, r3)) => Some((Beat { count, bar_number, length_us }, r3)),
                None => None,
            },
            None => None,
        },
        None => None,
    }
}

pub open spec fn dec_beats(b: Seq<u8>, n: int) -> Option<(Seq<Beat>, Seq<u8>)>
    decreases n,
{
    if n <= 0 {
        Some((Seq::empty(), b))
    } else {
        match dec_beat(b) {
            Some((beat, r1)) => match dec_beats(r1, n - 1) {
                Some((rest_beats, r2)) => Some((seq![beat] + rest_beats, r2)),
                None => None,
            },
            None => None,
        }
    }
}

pub open spec fn dec_requirement(v: u8) -> Option<JumpRequirement> {
    if v == 0 {
        Some(JumpRequirement::Always)
    } else if v == 1 {
        Some(JumpRequirement::VltOn)
    } else if v == 2 {
        Some(JumpRequirement::VltOff)
    } else {
        None
    }
}

pub open spec fn dec_vlt_action(v: u8) -> Option<VltAction> {
    if v == 0 {
        Some(VltAction::Keep)
    } else if v == 1 {
        Some(VltAction::Toggle)
    } else if v == 2 {
        Some(VltAction::SetOn)
    } else if v == 3 {
        Some(VltAction::SetOff)
    } else {
        None
    }
}

#[verifier::opaque]
pub open spec fn dec_description(b: Seq<u8>) -> Option<(EventDescription, Seq<u8>)> {
    match dec_u8(b) {
        Some((tag, r0)) => if tag == 0 {
            match dec_u16(r0) {
                Some((channel, r1)) => match dec_u16(r1) {
                    Some((clip_idx, r2)) => match dec_i32(r2) {
                        Some((sample_offset, r3)) => Some(
                            (
                                EventDescription::PlaybackStart {
                                    channel,
                                    clip_idx,
                                    sample_offset,
                                },
                                r3,
                            ),
                        ),
                        None => None,
                    },
                    None => None,
                },
                None => None,
            }
        } else if tag == 1 {
            match dec_u16(r0) {
                Some((channel, r1)) => Some((EventDescription::PlaybackStop { channel }, r1)),
                None => None,
            }
        } else if tag == 2 {
            match dec_u16(r0) {
                Some((h, r1)) => match dec_u16(r1) {
                    Some((m, r2)) => match dec_u16(r2) {
                        Some((s, r3)) => match dec_u16(r3) {
                            Some((f, r4)) => Some(
                                (EventDescription::TimecodeSet { h, m, s, f }, r4),
                            ),
                            None => None,
                        },
                        None => None,
                    },
                    None => None,
                },
                None => None,
            }
        } else if tag == 3 {
            match dec_u16(r0) {
                Some((destination, r1)) => match dec_u8(r1) {
                    Some((rq, r2)) => match dec_u8(r2) {
                        Some((wj, r3)) => match dec_u8(r3) {
                            Some((wp, r4)) => match (dec_requirement(rq), dec_vlt_action(wj),
                                dec_vlt_action(wp)) {
                                (Some(requirement), Some(when_jumped), Some(when_passed)) => Some(
                                    (
                                        EventDescription::Jump {
                                            destination,
                                            requirement,
                                            when_jumped,
                                            when_passed,
                                        },
                                        r4,
                                    ),
                                ),
                                _ => None,
                            },
                            None => None,
                        },
                        None => None,
                    },
                    None => None,
                },
                None => None,
            }
        } else {
            None
        },
        None => None,
    }
}

pub open spec fn dec_slot(b: Seq<u8>) -> Option<(Option<Event>, Seq<u8>)> {
    match dec_u8(b) {
        Some((tag, r0)) => if tag == 0 {
            Some((None, r0))
        } else if tag == 1 {
            match dec_u16(r0) {
                Some((location, r1)) => match dec_description(r1) {
                    Some((description, r2)) => Some(
                        (Some(Event { location, description }), r2),
                    ),
                    None => None,
                },
                None => None,
            }
        } else {
            None
        },
        None => None,
    }
}

pub open spec fn dec_slots(b: Seq<u8>, n: int) -> Option<(Seq<Option<Event>>, Seq<u8>)>
    decreases n,
{
    if n <= 0 {
        Some((Seq::empty(), b))
    } else {
        match dec_slot(b) {
            Some((slot, r1)) => match dec_slots(r1, n - 1) {
                Some((rest_slots, r2)) => Some((seq![slot] + rest_slots, r2)),
                None => None,
            },
            None => None,
        }
    }
}

#[verifier::opaque]
pub open spec fn dec_cue(b: Seq<u8>) -> Option<(CueV, Seq<u8>)> {
    match dec_bytes(b) {
        Some((ident, r1)) => match dec_bytes(r1) {
            Some((name, r2)) => match dec_u16(r2) {
                Some((nbeats, r3)) => if nbeats == 65535 {
                    None
                } else {
                    match dec_beats(r3, nbeats as int) {
                        Some((beats, r4)) => match dec_slots(r4, MAX_EVENTS as int) {
                            Some((events, r5)) => Some(
                                (CueV { ident, name, beats, events }, r5),
                            ),
                            None => None,
                        },
                        None => None,
                    }
                },
                None => None,
            },
            None => None,
        },
        None => None,
    }
}

pub open spec fn dec_cues(b: Seq<u8>, n: int) -> Option<(Seq<CueV>, Seq<u8>)>
    decreases n,
{
    if n <= 0 {
        Some((Seq::empty(), b))
    } else {
        match dec_cue(b) {
            Some((cue, r1)) => match dec_cues(r1, n - 1) {
                Some((rest_cues, r2)) => Some((seq![cue] + rest_cues, r2)),
                None => None,
            },
            None => None,
        }
    }
}

pub open spec fn dec_show(b: Seq<u8>) -> Option<(ShowV, Seq<u8>)> {
    match dec_u16(b) {
        Some((version, r0)) => if version == SHOW_FORMAT_VERSION {
            match dec_bytes(r0) {
                Some((name, r1)) => match dec_u16(r1) {
                    Some((ncues, r2)) => match dec_cues(r2, ncues as int) {
                        Some((cues, r3)) => Some((ShowV { name, cues }, r3)),
                        None => None,
                    },
                    None => None,
                },
                None => None,
            }
        } else {
            None
        },
        None => None,
    }
}

// ---- the round-trip law -----------------------------------------------

/// Reading a written word gives the word back.
proof fn lemma_u16_rt(v: u16, rest: Seq<u8>)
    ensures
        dec_u16(enc_u16(v) + rest) == Some((v, rest)),
{
    let b = enc_u16(v) + rest;
    vstd::arithmetic::div_mod::lemma_fundamental_div_mod(v as int, 256int);
    assert(b[0] == (v / 256) as u8 && b[1] == (v % 256) as u8);
    assert(((b[0] as u16) * 256 + (b[1] as u16)) as u16 == v);
    assert(b.skip(2) =~= rest);
}

proof fn lemma_u8_rt(v: u8, rest: Seq<u8>)
    ensures
        dec_u8(seq![v] + rest) == Some((v, rest)),
{
    let b = seq![v] + rest;
    assert(b.drop_first() =~= rest);
}

proof fn lemma_u32_rt(v: u32, rest: Seq<u8>)
    ensures
        dec_u32(enc_u32(v) + rest) == Some((v, rest)),
{
    let b = enc_u32(v) + rest;
    vstd::arithmetic::div_mod::lemma_fundamental_div_mod(v as int, 256int);
    vstd::arithmetic::div_mod::lemma_fundamental_div_mod(v as int / 256, 256int);
    vstd::arithmetic::div_mod::lemma_fundamental_div_mod(v as int / 65536, 256int);
    assert((v as int) / 256 / 256 == (v as int) / 65536) by {
        vstd::arithmetic::div_mod::lemma_div_denominator(v as int, 256int, 256int);
    }
    assert((v as int) / 65536 / 256 == (v as int) / 0x1000000) by {
        vstd::arithmetic::div_mod::lemma_div_denominator(v as int, 65536int, 256int);
    }
    assert(((b[0] as u32) * 0x1000000 + (b[1] as u32) * 0x10000 + (b[2] as u32) * 256 + (
    b[3] as u32)) as u32 == v);
    assert(b.skip(4) =~= rest);
}

proof fn lemma_i32_rt(v: i32, rest: Seq<u8>)
    ensures
        dec_i32(enc_i32(v) + rest) == Some((v, rest)),
{
    lemma_u32_rt(v as u32, rest);
    assert((v as u32) as i32 == v) by (bit_vector);
}

proof fn lemma_bytes_rt(s: Seq<u8>, rest: Seq<u8>)
    requires
        s.len() < 65536,
    ensures
        dec_bytes(enc_bytes(s) + rest) == Some((s, rest)),
{
    assert(enc_bytes(s) + rest =~= enc_u16(s.len() as u16) + (s + rest));
    lemma_u16_rt(s.len() as u16, s + rest);
    assert((s + rest).take(s.len() as int) =~= s);
    assert((s + rest).skip(s.len() as int) =~= rest);
}

proof fn lemma_beat_rt(beat: Beat, rest: Seq<u8>)
    ensures
        dec_beat(enc_beat(beat) + rest) == Some((beat, rest)),
{
    assert(enc_beat(beat) + rest =~= enc_u16(beat.count) + (enc_u16(beat.bar_number) + (
    enc_u32(beat.length_us) + rest)));
    lemma_u16_rt(beat.count, enc_u16(beat.bar_number) + (enc_u32(beat.length_us) + rest));
    lemma_u16_rt(beat.bar_number, enc_u32(beat.length_us) + rest);
    lemma_u32_rt(beat.length_us, rest);
}

#[verifier::rlimit(80)]
proof fn lemma_beats_rt(s: Seq<Beat>, rest: Seq<u8>)
    ensures
        dec_beats(enc_beats(s) + rest, s.len() as int) == Some((s, rest)),
    decreases s.len(),
{
    if s.len() == 0 {
        assert(enc_beats(s) + rest =~= rest);
        assert(dec_beats(rest, 0) == Some((Seq::<Beat>::empty(), rest)));
        assert(s =~= Seq::<Beat>::empty());
    } else {
        assert(enc_beats(s) + rest =~= enc_beat(s.first()) + (enc_beats(s.drop_first())
            + rest));
        lemma_beat_rt(s.first(), enc_beats(s.drop_first()) + rest);
        lemma_beats_rt(s.drop_first(), rest);
        assert(seq![s.first()] + s.drop_first() =~= s);
    }
}

#[verifier::rlimit(80)]
#[verifier::spinoff_prover]
proof fn lemma_description_start_rt(channel: u16, clip_idx: u16, sample_offset: i32, rest: Seq<u8>)
    ensures
        dec_description(
            enc_description(
                EventDescription::PlaybackStart { channel, clip_idx, sample_offset },
            ) + rest,
        ) == Some((EventDescription::PlaybackStart { channel, clip_idx, sample_offset }, rest)),
{
    reveal(dec_description);
    let d = EventDescription::PlaybackStart { channel, clip_idx, sample_offset };
    assert(enc_description(d) + rest =~= seq![0u8] + (enc_u16(channel) + (enc_u16(clip_idx)
        + (enc_i32(sample_offset) + rest))));
    lemma_u8_rt(0u8, enc_u16(channel) + (enc_u16(clip_idx) + (enc_i32(sample_offset) + rest)));
    lemma_u16_rt(channel, enc_u16(clip_idx) + (enc_i32(sample_offset) + rest));
    lemma_u16_rt(clip_idx, enc_i32(sample_offset) + rest);
    lemma_i32_rt(sample_offset, rest);
}

#[verifier::rlimit(80)]
#[verifier::spinoff_prover]
proof fn lemma_description_stop_rt(channel: u16, rest: Seq<u8>)
    ensures
        dec_description(enc_description(EventDescription::PlaybackStop { channel }) + rest)
            == Some((EventDescription::PlaybackStop { channel }, rest)),
{
    reveal(dec_description);
    let d = EventDescription::PlaybackStop { channel };
    assert(enc_description(d) + rest =~= seq![1u8] + (enc_u16(channel) + rest));
    lemma_u8_rt(1u8, enc_u16(channel) + rest);
    lemma_u16_rt(channel, rest);
}

#[verifier::rlimit(80)]
#[verifier::spinoff_prover]
proof fn lemma_description_tc_rt(h: u16, m: u16, s: u16, f: u16, rest: Seq<u8>)
    ensures
        dec_description(enc_description(EventDescription::TimecodeSet { h, m, s, f }) + rest)
            == Some((EventDescription::TimecodeSet { h, m, s, f }, rest)),
{
    reveal(dec_description);
    let d = EventDescription::TimecodeSet { h, m, s, f };
    assert(enc_description(d) + rest =~= seq![2u8] + (enc_u16(h) + (enc_u16(m) + (enc_u16(s)
        + (enc_u16(f) + rest)))));
    lemma_u8_rt(2u8, enc_u16(h) + (enc_u16(m) + (enc_u16(s) + (enc_u16(f) + rest))));
    lemma_u16_rt(h, enc_u16(m) + (enc_u16(s) + (enc_u16(f) + rest)));
    lemma_u16_rt(m, enc_u16(s) + (enc_u16(f) + rest));
    lemma_u16_rt(s, enc_u16(f) + rest);
    lemma_u16_rt(f, rest);
}

#[verifier::rlimit(80)]
#[verifier::spinoff_prover]
proof fn lemma_description_jump_rt(
    destination: u16,
    requirement: JumpRequirement,
    when_jumped: VltAction,
    when_passed: VltAction,
    rest: Seq<u8>,
)
    ensures
        dec_description(
            enc_description(
                EventDescription::Jump { destination, requirement, when_jumped, when_passed },
            ) + rest,
        ) == Some(
            (EventDescription::Jump { destination, requirement, when_jumped, when_passed }, rest),
        ),
{
    reveal(dec_description);
    let d = EventDescription::Jump { destination, requirement, when_jumped, when_passed };
    let tail = seq![
        enc_requirement(requirement),
        enc_vlt_action(when_jumped),
        enc_vlt_action(when_passed),
    ];
    assert(enc_description(d) + rest =~= seq![3u8] + (enc_u16(destination) + (tail + rest)));
    lemma_u8_rt(3u8, enc_u16(destination) + (tail + rest));
    lemma_u16_rt(destination, tail + rest);
    assert(tail + rest =~= seq![enc_requirement(requirement)] + (seq![
        enc_vlt_action(when_jumped),
    ] + (seq![enc_vlt_action(when_passed)] + rest)));
    lemma_u8_rt(enc_requirement(requirement), seq![enc_vlt_action(when_jumped)] + (seq![
        enc_vlt_action(when_passed),
    ] + rest));
    lemma_u8_rt(enc_vlt_action(when_jumped), seq![enc_vlt_action(when_passed)] + rest);
    lemma_u8_rt(enc_vlt_action(when_passed), rest);
}

proof fn lemma_description_rt(d: EventDescription, rest: Seq<u8>)
    ensures
        dec_description(enc_description(d) + rest) == Some((d, rest)),
{
    match d {
        EventDescription::PlaybackStart { channel, clip_idx, sample_offset } => {
            lemma_description_start_rt(channel, clip_idx, sample_offset, rest);
        }
        EventDescription::PlaybackStop { channel } => {
            lemma_description_stop_rt(channel, rest);
        }
        EventDescription::TimecodeSet { h, m, s, f } => {
            lemma_description_tc_rt(h, m, s, f, rest);
        }
        EventDescription::Jump { destination, requirement, when_jumped, when_passed } => {
            lemma_description_jump_rt(destination, requirement, when_jumped, when_passed, rest);
        }
    }
}

proof fn lemma_slot_rt(s: Option<Event>, rest: Seq<u8>)
    ensures
        dec_slot(enc_slot(s) + rest) == Some((s, rest)),
{
    match s {
        None => {
            assert(enc_slot(s) + rest =~= seq![0u8] + rest);
            lemma_u8_rt(0u8, rest);
        }
        Some(e) => {
            assert(enc_slot(s) + rest =~= seq![1u8] + (enc_u16(e.location) + (
            enc_description(e.description) + rest)));
            lemma_u8_rt(1u8, enc_u16(e.location) + (enc_description(e.description) + rest));
            lemma_u16_rt(e.location, enc_description(e.description) + rest);
            lemma_description_rt(e.description, rest);
        }
    }
}

#[verifier::rlimit(80)]
proof fn lemma_slots_rt(s: Seq<Option<Event>>, rest: Seq<u8>)
    ensures
        dec_slots(enc_slots(s) + rest, s.len() as int) == Some((s, rest)),
    decreases s.len(),
{
    if s.len() == 0 {
        assert(enc_slots(s) + rest =~= rest);
        assert(s =~= Seq::<Option<Event>>::empty());
    } else {
        assert(enc_slots(s) + rest =~= enc_slot(s.first()) + (enc_slots(s.drop_first())
            + rest));
        lemma_slot_rt(s.first(), enc_slots(s.drop_first()) + rest);
        lemma_slots_rt(s.drop_first(), rest);
        assert(seq![s.first()] + s.drop_first() =~= s);
    }
}

#[verifier::rlimit(100)]
#[verifier::spinoff_prover]
proof fn lemma_cue_rt(c: CueV, rest: Seq<u8>)
    requires
        cue_encodable(c),
    ensures
        dec_cue(enc_cue(c) + rest) == Some((c, rest)),
{
    reveal(dec_cue);
    assert(enc_cue(c) + rest =~= enc_bytes(c.ident) + (enc_bytes(c.name) + (enc_u16(
        c.beats.len() as u16,
    ) + (enc_beats(c.beats) + (enc_slots(c.events) + rest)))));
    lemma_bytes_rt(c.ident, enc_bytes(c.name) + (enc_u16(c.beats.len() as u16) + (enc_beats(
        c.beats,
    ) + (enc_slots(c.events) + rest))));
    lemma_bytes_rt(c.name, enc_u16(c.beats.len() as u16) + (enc_beats(c.beats) + (enc_slots(
        c.events,
    ) + rest)));
    lemma_u16_rt(c.beats.len() as u16, enc_beats(c.beats) + (enc_slots(c.events) + rest));
    lemma_beats_rt(c.beats, enc_slots(c.events) + rest);
    lemma_slots_rt(c.events, rest);
    assert(CueV { ident: c.ident, name: c.name, beats: c.beats, events: c.events } == c);
}

#[verifier::rlimit(100)]
#[verifier::spinoff_prover]
proof fn lemma_cues_rt(s: Seq<CueV>, rest: Seq<u8>)
    requires
        forall|i: int| 0 <= i < s.len() ==> cue_encodable(#[trigger] s[i]),
    ensures
        dec_cues(enc_cues(s) + rest, s.len() as int) == Some((s, rest)),
    decreases s.len(),
{
    if s.len() == 0 {
        assert(enc_cues(s) + rest =~= rest);
        assert(s =~= Seq::<CueV>::empty());
    } else {
        let head = s.first();
        let tl = s.drop_first();
        let mid = enc_cues(tl) + rest;
        assert(enc_cues(s) + rest =~= enc_cue(head) + mid) by {
            assert(enc_cues(s) == enc_cue(head) + enc_cues(tl));
        }
        lemma_cue_rt(head, mid);
        assert(forall|i: int| 0 <= i < tl.len() ==> cue_encodable(#[trigger] tl[i]));
        lemma_cues_rt(tl, rest);
        assert(dec_cues(enc_cues(s) + rest, s.len() as int) == Some((s, rest))) by {
            assert(dec_cue(enc_cues(s) + rest) == Some((head, mid)));
            assert(dec_cues(mid, s.len() as int - 1) == Some((tl, rest)));
            assert(seq![head] + tl =~= s);
        }
    }
}

// ---- executable encoder ------------------------------------------------

/// Append one word, high byte first.
fn push_u16(out: &mut Vec<u8>, v: u16)
    ensures
        final(out)@ == old(out)@ + enc_u16(v),
{
    out.push((v / 256) as u8);
    out.push((v % 256) as u8);
    proof {
        assert(final(out)@ =~= old(out)@ + enc_u16(v));
    }
}

/// Append one double word, high byte first.
fn push_u32(out: &mut Vec<u8>, v: u32)
    ensures
        final(out)@ == old(out)@ + enc_u32(v),
{
    out.push((v / 0x1000000) as u8);
    out.push(((v / 0x10000) % 256) as u8);
    out.push(((v / 256) % 256) as u8);
    out.push((v % 256) as u8);
    proof {
        assert(final(out)@ =~= old(out)@ + enc_u32(v));
    }
}

/// Append one signed double word in two's complement, high byte first.
fn push_i32(out: &mut Vec<u8>, v: i32)
    ensures
        final(out)@ == old(out)@ + enc_i32(v),
{
    push_u32(out, v as u32);
}

/// Append a length-prefixed byte string.
fn push_bytes(out: &mut Vec<u8>, b: &Vec<u8>)
    requires
        b@.len() < 65536,
    ensures
        final(out)@ == old(out)@ + enc_bytes(b@),
{
    push_u16(out, b.len() as u16);
    let mut i: usize = 0;
    while i < b.len()
        invariant
            i <= b@.len(),
            out@ == old(out)@ + enc_u16(b@.len() as u16) + b@.subrange(0, i as int),
        decreases b@.len() - i,
    {
        out.push(b[i]);
        proof {
            assert(out@ =~= old(out)@ + enc_u16(b@.len() as u16) + b@.subrange(0, i + 1));
        }
        i += 1;
    }
    proof {
        assert(b@.subrange(0, b@.len() as int) =~= b@);
        assert(old(out)@ + enc_u16(b@.len() as u16) + b@ =~= old(out)@ + enc_bytes(b@));
    }
}

/// Append one beat.
fn push_beat(out: &mut Vec<u8>, b: Beat)
    ensures
        final(out)@ == old(out)@ + enc_beat(b),
{
    push_u16(out, b.count);
    push_u16(out, b.bar_number);
    push_u32(out, b.length_us);
    proof {
        assert(final(out)@ =~= old(out)@ + enc_beat(b));
    }
}

/// Appending one more beat extends the list's encoding at the end.
proof fn lemma_enc_beats_push(s: Seq<Beat>, b: Beat)
    ensures
        enc_beats(s.push(b)) == enc_beats(s) + enc_beat(b),
    decreases s.len(),
{
    if s.len() == 0 {
        assert(s.push(b).first() == b);
        assert(s.push(b).drop_first() =~= Seq::<Beat>::empty());
        assert(enc_beats(s.push(b).drop_first()) == enc_beats(Seq::<Beat>::empty()));
        assert(enc_beats(s.push(b)) =~= enc_beats(s) + enc_beat(b));
    } else {
        assert(s.push(b).first() == s.first());
        assert(s.push(b).drop_first() =~= s.drop_first().push(b));
        assert(enc_beats(s.push(b).drop_first()) == enc_beats(s.drop_first().push(b)));
        lemma_enc_beats_push(s.drop_first(), b);
        assert(enc_beats(s.push(b)) =~= enc_beats(s) + enc_beat(b));
    }
}

/// Append one event slot.
fn push_slot(out: &mut Vec<u8>, s: &Option<Event>)
    ensures
        final(out)@ == old(out)@ + enc_slot(*s),
{
    match s {
        None => {
            out.push(0u8);
            proof {
                assert(final(out)@ =~= old(out)@ + enc_slot(None::<Event>));
            }
        }
        Some(e) => {
            out.push(1u8);
            push_u16(out, e.location);
            match e.description {
                EventDescription::PlaybackStart { channel, clip_idx, sample_offset } => {
                    out.push(0u8);
                    push_u16(out, channel);
                    push_u16(out, clip_idx);
                    push_i32(out, sample_offset);
                }
                EventDescription::PlaybackStop { channel } => {
                    out.push(1u8);
                    push_u16(out, channel);
                }
                EventDescription::TimecodeSet { h, m, s, f } => {
                    out.push(2u8);
                    push_u16(out, h);
                    push_u16(out, m);
                    push_u16(out, s);
                    push_u16(out, f);
                }
                EventDescription::Jump { destination, requirement, when_jumped, when_passed }
                    => {
                    out.push(3u8);
                    push_u16(out, destination);
                    out.push(
                        match requirement {
                            JumpRequirement::Always => 0u8,
                            JumpRequirement::VltOn => 1u8,
                            JumpRequirement::VltOff => 2u8,
                        },
                    );
                    out.push(
                        match when_jumped {
                            VltAction::Keep => 0u8,
                            VltAction::Toggle => 1u8,
                            VltAction::SetOn => 2u8,
                            VltAction::SetOff => 3u8,
                        },
                    );
                    out.push(
                        match when_passed {
                            VltAction::Keep => 0u8,
                            VltAction::Toggle => 1u8,
                            VltAction::SetOn => 2u8,
                            VltAction::SetOff => 3u8,
                        },
                    );
                }
            }
            proof {
                assert(final(out)@ =~= old(out)@ + enc_slot(Some(*e)));
            }
        }
    }
}

/// Appending one more slot extends the table's encoding at the end.
proof fn lemma_enc_slots_push(s: Seq<Option<Event>>, x: Option<Event>)
    ensures
        enc_slots(s.push(x)) == enc_slots(s) + enc_slot(x),
    decreases s.len(),
{
    if s.len() == 0 {
        assert(s.push(x).first() == x);
        assert(s.push(x).drop_first() =~= Seq::<Option<Event>>::empty());
        assert(enc_slots(s.push(x).drop_first()) == enc_slots(Seq::<Option<Event>>::empty()));
        assert(enc_slots(s.push(x)) =~= enc_slots(s) + enc_slot(x));
    } else {
        assert(s.push(x).first() == s.first());
        assert(s.push(x).drop_first() =~= s.drop_first().push(x));
        assert(enc_slots(s.push(x).drop_first()) == enc_slots(s.drop_first().push(x)));
        lemma_enc_slots_push(s.drop_first(), x);
        assert(enc_slots(s.push(x)) =~= enc_slots(s) + enc_slot(x));
    }
}

/// Appending one more cue extends the list's encoding at the end.
proof fn lemma_enc_cues_push(s: Seq<CueV>, c: CueV)
    ensures
        enc_cues(s.push(c)) == enc_cues(s) + enc_cue(c),
    decreases s.len(),
{
    if s.len() == 0 {
        assert(s.push(c).first() == c);
        assert(s.push(c).drop_first() =~= Seq::<CueV>::empty());
        assert(enc_cues(s.push(c).drop_first()) == enc_cues(Seq::<CueV>::empty()));
        assert(enc_cues(s.push(c)) =~= enc_cues(s) + enc_cue(c));
    } else {
        assert(s.push(c).first() == s.first());
        assert(s.push(c).drop_first() =~= s.drop_first().push(c));
        assert(enc_cues(s.push(c).drop_first()) == enc_cues(s.drop_first().push(c)));
        lemma_enc_cues_push(s.drop_first(), c);
        assert(enc_cues(s.push(c)) =~= enc_cues(s) + enc_cue(c));
    }
}

/// Append one cue.
fn push_cue(out: &mut Vec<u8>, c: &Cue)
    requires
        cue_encodable(cue_view(*c)),
    ensures
        final(out)@ == old(out)@ + enc_cue(cue_view(*c)),
{
    push_bytes(out, &c.human_ident);
    push_bytes(out, &c.name);
    push_u16(out, c.beats.len() as u16);
    let mut i: usize = 0;
    while i < c.beats.len()
        invariant
            cue_encodable(cue_view(*c)),
            i <= c.beats@.len(),
            out@ == old(out)@ + enc_bytes(c.human_ident@) + enc_bytes(c.name@) + enc_u16(
                c.beats@.len() as u16,
            ) + enc_beats(c.beats@.subrange(0, i as int)),
        decreases c.beats@.len() - i,
    {
        push_beat(out, c.beats[i]);
        proof {
            assert(c.beats@.subrange(0, i as int).push(c.beats@[i as int])
                =~= c.beats@.subrange(0, i + 1));
            lemma_enc_beats_push(c.beats@.subrange(0, i as int), c.beats@[i as int]);
        }
        i += 1;
    }
    proof {
        assert(c.beats@.subrange(0, c.beats@.len() as int) =~= c.beats@);
    }
    let mut j: usize = 0;
    while j < MAX_EVENTS
        invariant
            cue_encodable(cue_view(*c)),
            c.events.wf(),
            j <= MAX_EVENTS,
            out@ == old(out)@ + enc_bytes(c.human_ident@) + enc_bytes(c.name@) + enc_u16(
                c.beats@.len() as u16,
            ) + enc_beats(c.beats@) + enc_slots(c.events@.subrange(0, j as int)),
        decreases MAX_EVENTS - j,
    {
        let slot = c.events.get(j);
        push_slot(out, &slot);
        proof {
            assert(c.events@.subrange(0, j as int).push(c.events@[j as int])
                =~= c.events@.subrange(0, j + 1));
            lemma_enc_slots_push(c.events@.subrange(0, j as int), c.events@[j as int]);
        }
        j += 1;
    }
    proof {
        assert(c.events@.subrange(0, MAX_EVENTS as int) =~= c.events@);
        assert(old(out)@ + enc_bytes(c.human_ident@) + enc_bytes(c.name@) + enc_u16(
            c.beats@.len() as u16,
        ) + enc_beats(c.beats@) + enc_slots(c.events@) =~= old(out)@ + enc_cue(cue_view(*c)));
    }
}

/// Whether a show's content fits the format's counts.
pub fn show_fits_format(show: &Show) -> (r: bool)
    requires
        show.wf(),
    ensures
        r == show_encodable(show_view(*show)),
{
    if show.name.len() >= 65536 || show.cues.len() >= 65536 {
        proof {
            assert(!show_encodable(show_view(*show)));
        }
        return false;
    }
    let mut i: usize = 0;
    while i < show.cues.len()
        invariant
            show.wf(),
            show.name@.len() < 65536,
            show.cues@.len() < 65536,
            i <= show.cues@.len(),
            forall|k: int| 0 <= k < i ==> cue_encodable(#[trigger] show_view(*show).cues[k]),
        decreases show.cues@.len() - i,
    {
        let c = &show.cues[i];
        proof {
            assert(show.cues@[i as int].wf());
            assert(show_view(*show).cues[i as int] == cue_view(show.cues@[i as int]));
        }
        if c.human_ident.len() >= 65536 || c.name.len() >= 65536 {
            proof {
                assert(!cue_encodable(show_view(*show).cues[i as int]));
            }
            return false;
        }
        i += 1;
    }
    true
}

/// Write a show in this format.
pub fn encode_show(show: &Show) -> (r: Vec<u8>)
    requires
        show.wf(),
        show_encodable(show_view(*show)),
    ensures
        r@ == enc_show(show_view(*show)),
{
    let mut out: Vec<u8> = Vec::new();
    push_u16(&mut out, SHOW_FORMAT_VERSION);
    push_bytes(&mut out, &show.name);
    push_u16(&mut out, show.cues.len() as u16);
    let ghost sv = show_view(*show);
    let mut i: usize = 0;
    while i < show.cues.len()
        invariant
            show.wf(),
            show_encodable(sv),
            sv == show_view(*show),
            i <= show.cues@.len(),
            out@ == enc_u16(SHOW_FORMAT_VERSION) + enc_bytes(show.name@) + enc_u16(
                show.cues@.len() as u16,
            ) + enc_cues(sv.cues.subrange(0, i as int)),
        decreases show.cues@.len() - i,
    {
        proof {
            assert(sv.cues[i as int] == cue_view(show.cues@[i as int]));
            assert(cue_encodable(sv.cues[i as int]));
        }
        push_cue(&mut out, &show.cues[i]);
        proof {
            assert(sv.cues.subrange(0, i as int).push(sv.cues[i as int]) =~= sv.cues.subrange(
                0,
                i + 1,
            ));
            lemma_enc_cues_push(sv.cues.subrange(0, i as int), sv.cues[i as int]);
        }
        i += 1;
    }
    proof {
        assert(sv.cues.subrange(0, sv.cues.len() as int) =~= sv.cues);
        assert(out@ =~= enc_show(sv));
    }
    out
}

// ---- executable decoder ------------------------------------------------

/// Parse one byte at `pos`.
fn rd_u8(b: &Vec<u8>, pos: usize) -> (r: Option<(u8, usize)>)
    requires
        pos <= b@.len(),
    ensures
        match r {
            Some((v, p2)) => pos < p2 <= b@.len() && dec_u8(b@.skip(pos as int)) == Some(
                (v, b@.skip(p2 as int)),
            ),
            None => dec_u8(b@.skip(pos as int)) is None,
        },
{
    if pos < b.len() {
        proof {
            assert(b@.skip(pos as int).drop_first() =~= b@.skip(pos + 1));
        }
        Some((b[pos], pos + 1))
    } else {
        None
    }
}

/// Parse one word at `pos`, high byte first.
fn rd_u16(b: &Vec<u8>, pos: usize) -> (r: Option<(u16, usize)>)
    requires
        pos <= b@.len(),
    ensures
        match r {
            Some((v, p2)) => pos < p2 <= b@.len() && dec_u16(b@.skip(pos as int)) == Some(
                (v, b@.skip(p2 as int)),
            ),
            None => dec_u16(b@.skip(pos as int)) is None,
        },
{
    if b.len() - pos >= 2 {
        let v: u16 = (b[pos] as u16) * 256 + (b[pos + 1] as u16);
        proof {
            assert(b@.skip(pos as int).skip(2) =~= b@.skip(pos + 2));
        }
        Some((v, pos + 2))
    } else {
        None
    }
}

/// Parse one double word at `pos`, high byte first.
fn rd_u32(b: &Vec<u8>, pos: usize) -> (r: Option<(u32, usize)>)
    requires
        pos <= b@.len(),
    ensures
        match r {
            Some((v, p2)) => pos < p2 <= b@.len() && dec_u32(b@.skip(pos as int)) == Some(
                (v, b@.skip(p2 as int)),
            ),
            None => dec_u32(b@.skip(pos as int)) is None,
        },
{
    if b.len() - pos >= 4 {
        let v: u32 = (b[pos] as u32) * 0x1000000 + (b[pos + 1] as u32) * 0x10000 + (b[pos
            + 2] as u32) * 256 + (b[pos + 3] as u32);
        proof {
            assert(b@.skip(pos as int).skip(4) =~= b@.skip(pos + 4));
        }
        Some((v, pos + 4))
    } else {
        None
    }
}

/// Parse one signed double word at `pos`.
fn rd_i32(b: &Vec<u8>, pos: usize) -> (r: Option<(i32, usize)>)
    requires
        pos <= b@.len(),
    ensures
        match r {
            Some((v, p2)) => pos < p2 <= b@.len() && dec_i32(b@.skip(pos as int)) == Some(
                (v, b@.skip(p2 as int)),
            ),
            None => dec_i32(b@.skip(pos as int)) is None,
        },
{
    match rd_u32(b, pos) {
        Some((v, p2)) => Some((#[verifier::truncate] (v as i32), p2)),
        None => None,
    }
}

/// Parse a length-prefixed byte string at `pos`.
fn rd_bytes(b: &Vec<u8>, pos: usize) -> (r: Option<(Vec<u8>, usize)>)
    requires
        pos <= b@.len(),
    ensures
        match r {
            Some((v, p2)) => pos < p2 <= b@.len() && dec_bytes(b@.skip(pos as int)) == Some(
                (v@, b@.skip(p2 as int)),
            ) && v@.len() < 65536,
            None => dec_bytes(b@.skip(pos as int)) is None,
        },
{
    match rd_u16(b, pos) {
        Some((n, p1)) => {
            let blen = b.len();
            if (n as usize) <= blen - p1 {
                let mut v: Vec<u8> = Vec::new();
                let mut i: usize = 0;
                while i < n as usize
                    invariant
                        blen == b@.len(),
                        p1 + n <= blen,
                        i <= n,
                        v@.len() == i,
                        forall|j: int| 0 <= j < i ==> v@[j] == b@[p1 + j],
                    decreases n as usize - i,
                {
                    v.push(b[p1 + i]);
                    i += 1;
                }
                proof {
                    assert(v@ =~= b@.skip(p1 as int).take(n as int));
                    assert(b@.skip(p1 as int).skip(n as int) =~= b@.skip(p1 + n as int));
                }
                Some((v, p1 + n as usize))
            } else {
                None
            }
        }
        None => None,
    }
}

/// Parse one beat at `pos`.
fn rd_beat(b: &Vec<u8>, pos: usize) -> (r: Option<(Beat, usize)>)
    requires
        pos <= b@.len(),
    ensures
        match r {
            Some((v, p2)) => pos < p2 <= b@.len() && dec_beat(b@.skip(pos as int)) == Some(
                (v, b@.skip(p2 as int)),
            ),
            None => dec_beat(b@.skip(pos as int)) is None,
        },
{
    let (count, p1) = match rd_u16(b, pos) {
        Some(x) => x,
        None => {
            return None;
        }
    };
    let (bar_number, p2) = match rd_u16(b, p1) {
        Some(x) => x,
        None => {
            return None;
        }
    };
    let (length_us, p3) = match rd_u32(b, p2) {
        Some(x) => x,
        None => {
            return None;
        }
    };
    Some((Beat { count, bar_number, length_us }, p3))
}

/// Parse one event description at `pos`.
#[verifier::rlimit(100)]
#[verifier::spinoff_prover]
fn rd_description(b: &Vec<u8>, pos: usize) -> (r: Option<(EventDescription, usize)>)
    requires
        pos <= b@.len(),
    ensures
        match r {
            Some((v, p2)) => pos < p2 <= b@.len() && dec_description(b@.skip(pos as int))
                == Some((v, b@.skip(p2 as int))),
            None => dec_description(b@.skip(pos as int)) is None,
        },
{
    proof {
        reveal(dec_description);
    }
    let (tag, p0) = match rd_u8(b, pos) {
        Some(x) => x,
        None => {
            return None;
        }
    };
    if tag == 0 {
        let (channel, p1) = match rd_u16(b, p0) {
            Some(x) => x,
            None => {
                return None;
            }
        };
        let (clip_idx, p2) = match rd_u16(b, p1) {
            Some(x) => x,
            None => {
                return None;
            }
        };
        let (sample_offset, p3) = match rd_i32(b, p2) {
            Some(x) => x,
            None => {
                return None;
            }
        };
        Some((EventDescription::PlaybackStart { channel, clip_idx, sample_offset }, p3))
    } else if tag == 1 {
        let (channel, p1) = match rd_u16(b, p0) {
            Some(x) => x,
            None => {
                return None;
            }
        };
        Some((EventDescription::PlaybackStop { channel }, p1))
    } else if tag == 2 {
        let (h, p1) = match rd_u16(b, p0) {
            Some(x) => x,
            None => {
                return None;
            }
        };
        let (m, p2) = match rd_u16(b, p1) {
            Some(x) => x,
            None => {
                return None;
            }
        };
        let (s, p3) = match rd_u16(b, p2) {
            Some(x) => x,
            None => {
                return None;
            }
        };
        let (f, p4) = match rd_u16(b, p3) {
            Some(x) => x,
            None => {
                return None;
            }
        };
        Some((EventDescription::TimecodeSet { h, m, s, f }, p4))
    } else if tag == 3 {
        let (destination, p1) = match rd_u16(b, p0) {
            Some(x) => x,
            None => {
                return None;
            }
        };
        let (rq, p2) = match rd_u8(b, p1) {
            Some(x) => x,
            None => {
                return None;
            }
        };
        let (wj, p3) = match rd_u8(b, p2) {
            Some(x) => x,
            None => {
                return None;
            }
        };
        let (wp, p4) = match rd_u8(b, p3) {
            Some(x) => x,
            None => {
                return None;
            }
        };
        let requirement = match rd_requirement(rq) {
            Some(x) => x,
            None => {
                return None;
            }
        };
        let when_jumped = match rd_vlt_action(wj) {
            Some(x) => x,
            None => {
                return None;
            }
        };
        let when_passed = match rd_vlt_action(wp) {
            Some(x) => x,
            None => {
                return None;
            }
        };
        Some((EventDescription::Jump { destination, requirement, when_jumped, when_passed },
            p4))
    } else {
        None
    }
}

/// A requirement back from its wire byte.
fn rd_requirement(v: u8) -> (r: Option<JumpRequirement>)
    ensures
        r == dec_requirement(v),
{
    if v == 0 {
        Some(JumpRequirement::Always)
    } else if v == 1 {
        Some(JumpRequirement::VltOn)
    } else if v == 2 {
        Some(JumpRequirement::VltOff)
    } else {
        None
    }
}

/// A VLT action back from its wire byte.
fn rd_vlt_action(v: u8) -> (r: Option<VltAction>)
    ensures
        r == dec_vlt_action(v),
{
    if v == 0 {
        Some(VltAction::Keep)
    } else if v == 1 {
        Some(VltAction::Toggle)
    } else if v == 2 {
        Some(VltAction::SetOn)
    } else if v == 3 {
        Some(VltAction::SetOff)
    } else {
        None
    }
}

/// Parse one event slot at `pos`.
fn rd_slot(b: &Vec<u8>, pos: usize) -> (r: Option<(Option<Event>, usize)>)
    requires
        pos <= b@.len(),
    ensures
        match r {
            Some((v, p2)) => pos < p2 <= b@.len() && dec_slot(b@.skip(pos as int)) == Some(
                (v, b@.skip(p2 as int)),
            ),
            None => dec_slot(b@.skip(pos as int)) is None,
        },
{
    let (tag, p0) = match rd_u8(b, pos) {
        Some(x) => x,
        None => {
            return None;
        }
    };
    if tag == 0 {
        Some((None, p0))
    } else if tag == 1 {
        let (location, p1) = match rd_u16(b, p0) {
            Some(x) => x,
            None => {
                return None;
            }
        };
        let (description, p2) = match rd_description(b, p1) {
            Some(x) => x,
            None => {
                return None;
            }
        };
        Some((Some(Event { location, description }), p2))
    } else {
        None
    }
}

/// Splice a parsed prefix onto a parse of the remainder.
pub open spec fn chain_beats(prefix: Seq<Beat>, t: Option<(Seq<Beat>, Seq<u8>)>) -> Option<(
    Seq<Beat>,
    Seq<u8>,
)> {
    match t {
        Some((s, r)) => Some((prefix + s, r)),
        None => None,
    }
}

/// Splice a parsed prefix onto a parse of the remainder.
pub open spec fn chain_slots(prefix: Seq<Option<Event>>, t: Option<(Seq<Option<Event>>, Seq<u8>)>)
    -> Option<(Seq<Option<Event>>, Seq<u8>)> {
    match t {
        Some((s, r)) => Some((prefix + s, r)),
        None => None,
    }
}

/// Splice a parsed prefix onto a parse of the remainder.
pub open spec fn chain_cues(prefix: Seq<CueV>, t: Option<(Seq<CueV>, Seq<u8>)>) -> Option<(
    Seq<CueV>,
    Seq<u8>,
)> {
    match t {
        Some((s, r)) => Some((prefix + s, r)),
        None => None,
    }
}

/// Parse one cue at `pos`.
#[verifier::rlimit(100)]
#[verifier::spinoff_prover]
#[verifier::loop_isolation(false)]
fn rd_cue(b: &Vec<u8>, pos: usize) -> (r: Option<(Cue, usize)>)
    requires
        pos <= b@.len(),
    ensures
        match r {
            Some((v, p2)) => pos < p2 <= b@.len() && v.wf() && dec_cue(b@.skip(pos as int))
                == Some((cue_view(v), b@.skip(p2 as int))),
            None => dec_cue(b@.skip(pos as int)) is None,
        },
{
    proof {
        reveal(dec_cue);
    }
    let (human_ident, p1) = match rd_bytes(b, pos) {
        Some(x) => x,
        None => {
            return None;
        }
    };
    let (name, p2) = match rd_bytes(b, p1) {
        Some(x) => x,
        None => {
            return None;
        }
    };
    let (nbeats, p3) = match rd_u16(b, p2) {
        Some(x) => x,
        None => {
            return None;
        }
    };
    if nbeats == 65535 {
        proof {
            reveal(dec_cue);
        }
        return None;
    }
    let mut beats: Vec<Beat> = Vec::new();
    let mut i: usize = 0;
    let mut pos_b: usize = p3;
    while i < nbeats as usize
        invariant
            p3 <= pos_b <= b@.len(),
            i <= nbeats,
            beats@.len() == i,
            dec_beats(b@.skip(p3 as int), nbeats as int) == chain_beats(
                beats@,
                dec_beats(b@.skip(pos_b as int), nbeats as int - i),
            ),
        decreases nbeats as usize - i,
    {
        let (beat, pn) = match rd_beat(b, pos_b) {
            Some(x) => x,
            None => {
                proof {
                    reveal(dec_cue);
                    assert(dec_beats(b@.skip(pos_b as int), nbeats as int - i) is None);
                }
                return None;
            }
        };
        proof {
            let cur = b@.skip(pos_b as int);
            let nxt = b@.skip(pn as int);
            assert(dec_beats(cur, nbeats as int - i) == chain_beats(
                seq![beat],
                dec_beats(nxt, nbeats as int - i - 1),
            ));
            assert forall|t: Option<(Seq<Beat>, Seq<u8>)>| true implies chain_beats(
                beats@,
                chain_beats(seq![beat], t),
            ) == chain_beats(beats@.push(beat), t) by {
                match t {
                    Some((s2, r2)) => {
                        assert(beats@ + (seq![beat] + s2) =~= beats@.push(beat) + s2);
                    }
                    None => {}
                }
            }
        }
        beats.push(beat);
        pos_b = pn;
        i += 1;
    }
    proof {
        assert(dec_beats(b@.skip(pos_b as int), 0) == Some(
            (Seq::<Beat>::empty(), b@.skip(pos_b as int)),
        ));
        assert(beats@ + Seq::<Beat>::empty() =~= beats@);
    }
    let mut slots: Vec<Option<Event>> = Vec::new();
    let mut j: usize = 0;
    let mut pos_s: usize = pos_b;
    while j < MAX_EVENTS
        invariant
            pos_b <= pos_s <= b@.len(),
            j <= MAX_EVENTS,
            slots@.len() == j,
            dec_slots(b@.skip(pos_b as int), MAX_EVENTS as int) == chain_slots(
                slots@,
                dec_slots(b@.skip(pos_s as int), MAX_EVENTS as int - j),
            ),
        decreases MAX_EVENTS - j,
    {
        let (slot, pn) = match rd_slot(b, pos_s) {
            Some(x) => x,
            None => {
                proof {
                    reveal(dec_cue);
                    assert(dec_slots(b@.skip(pos_s as int), MAX_EVENTS as int - j) is None);
                }
                return None;
            }
        };
        proof {
            let nxt = b@.skip(pn as int);
            assert(dec_slots(b@.skip(pos_s as int), MAX_EVENTS as int - j) == chain_slots(
                seq![slot],
                dec_slots(nxt, MAX_EVENTS as int - j - 1),
            ));
            assert forall|t: Option<(Seq<Option<Event>>, Seq<u8>)>| true implies chain_slots(
                slots@,
                chain_slots(seq![slot], t),
            ) == chain_slots(slots@.push(slot), t) by {
                match t {
                    Some((s2, r2)) => {
                        assert(slots@ + (seq![slot] + s2) =~= slots@.push(slot) + s2);
                    }
                    None => {}
                }
            }
        }
        slots.push(slot);
        pos_s = pn;
        j += 1;
    }
    proof {
        assert(dec_slots(b@.skip(pos_s as int), 0) == Some(
            (Seq::<Option<Event>>::empty(), b@.skip(pos_s as int)),
        ));
        assert(slots@ + Seq::<Option<Event>>::empty() =~= slots@);
    }
    let events = crate::model::EventTable::from_slots(slots);
    let cue = Cue { human_ident, name, beats, events };
    proof {
        reveal(dec_cue);
        assert(cue_view(cue) == CueV {
            ident: cue.human_ident@,
            name: cue.name@,
            beats: cue.beats@,
            events: cue.events@,
        });
    }
    Some((cue, pos_s))
}

/// Read a show back from this format. Succeeds exactly when the bytes
/// are one whole well-formed show, and then returns exactly the show
/// whose encoding the bytes are.
#[verifier::rlimit(100)]
#[verifier::spinoff_prover]
#[verifier::loop_isolation(false)]
pub fn decode_show(bytes: &Vec<u8>) -> (r: Result<Show, DecodeError>)
    ensures
        r is Ok <==> (dec_show(bytes@) matches Some(p) && p.1.len() == 0),
        r matches Ok(sh) ==> sh.wf() && (dec_show(bytes@) matches Some(p) && p.0 == show_view(
            sh,
        ) && p.1.len() == 0),
{
    let (version, p0) = match rd_u16(bytes, 0) {
        Some(x) => x,
        None => {
            proof {
                assert(bytes@.skip(0) =~= bytes@);
            }
            return Err(DecodeError::Malformed);
        }
    };
    proof {
        assert(bytes@.skip(0) =~= bytes@);
    }
    if version != SHOW_FORMAT_VERSION {
        return Err(DecodeError::Malformed);
    }
    let (name, p1) = match rd_bytes(bytes, p0) {
        Some(x) => x,
        None => {
            return Err(DecodeError::Malformed);
        }
    };
    let (ncues, p2) = match rd_u16(bytes, p1) {
        Some(x) => x,
        None => {
            return Err(DecodeError::Malformed);
        }
    };
    let mut cues: Vec<Cue> = Vec::new();
    let mut i: usize = 0;
    let mut pos: usize = p2;
    while i < ncues as usize
        invariant
            pos <= bytes@.len(),
            i <= ncues,
            cues@.len() == i,
            forall|k: int| 0 <= k < i ==> (#[trigger] cues@[k]).wf(),
            dec_cues(bytes@.skip(p2 as int), ncues as int) == chain_cues(
                cues_views(cues@),
                dec_cues(bytes@.skip(pos as int), ncues as int - i),
            ),
        decreases ncues as usize - i,
    {
        let (cue, pn) = match rd_cue(bytes, pos) {
            Some(x) => x,
            None => {
                proof {
                    assert(dec_cues(bytes@.skip(pos as int), ncues as int - i) is None);
                }
                return Err(DecodeError::Malformed);
            }
        };
        proof {
            let nxt = bytes@.skip(pn as int);
            assert(dec_cues(bytes@.skip(pos as int), ncues as int - i) == chain_cues(
                seq![cue_view(cue)],
                dec_cues(nxt, ncues as int - i - 1),
            ));
            let mapped = cues_views(cues@);
            assert forall|t: Option<(Seq<CueV>, Seq<u8>)>| true implies chain_cues(
                mapped,
                chain_cues(seq![cue_view(cue)], t),
            ) == chain_cues(cues_views(cues@.push(cue)), t) by {
                assert(cues_views(cues@.push(cue)) =~= mapped.push(cue_view(cue)));
                match t {
                    Some((s2, r2)) => {
                        assert(mapped + (seq![cue_view(cue)] + s2) =~= mapped.push(cue_view(
                            cue,
                        )) + s2);
                    }
                    None => {}
                }
            }
        }
        cues.push(cue);
        pos = pn;
        i += 1;
    }
    proof {
        assert(dec_cues(bytes@.skip(pos as int), 0) == Some(
            (Seq::<CueV>::empty(), bytes@.skip(pos as int)),
        ));
        let mapped = cues_views(cues@);
        assert(mapped + Seq::<CueV>::empty() =~= mapped);
    }
    if pos != bytes.len() {
        proof {
            assert(bytes@.skip(pos as int).len() == bytes@.len() - pos);
        }
        return Err(DecodeError::Malformed);
    }
    let show = Show { name, cues };
    proof {
        assert(bytes@.skip(pos as int).len() == 0);
        assert(show_view(show) == ShowV { name: show.name@, cues: cues_views(show.cues@) });
    }
    Ok(show)
}

/// Law: a show written in this format and read back comes back exactly,
/// with nothing left over — whatever follows the show on the medium is
/// exactly what remains.
#[verifier::rlimit(100)]
#[verifier::spinoff_prover]
pub proof fn lemma_show_round_trip(s: ShowV, rest: Seq<u8>)
    requires
        show_encodable(s),
    ensures
        dec_show(enc_show(s) + rest) == Some((s, rest)),
{
    assert(enc_show(s) + rest =~= enc_u16(SHOW_FORMAT_VERSION) + (enc_bytes(s.name) + (
    enc_u16(s.cues.len() as u16) + (enc_cues(s.cues) + rest))));
    lemma_u16_rt(SHOW_FORMAT_VERSION, enc_bytes(s.name) + (enc_u16(s.cues.len() as u16) + (
    enc_cues(s.cues) + rest)));
    lemma_bytes_rt(s.name, enc_u16(s.cues.len() as u16) + (enc_cues(s.cues) + rest));
    lemma_u16_rt(s.cues.len() as u16, enc_cues(s.cues) + rest);
    lemma_cues_rt(s.cues, rest);
    assert(ShowV { name: s.name, cues: s.cues } == s);
}

} // verus!
