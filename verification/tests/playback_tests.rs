use clicks_core::handler::PlaybackHandler;
use clicks_core::model::{Beat, Cue, Event, EventDescription};
use clicks_core::playback::{AudioSourceError, PlaybackCore, PlaybackOut};

fn cue_with_beats(lengths: &[u32]) -> Cue {
    let mut cue = Cue::empty();
    for (i, len) in lengths.iter().enumerate() {
        cue.beats.push(Beat { count: (i % 4 + 1) as u16, bar_number: (i / 4) as u16, length_us: *len });
    }
    cue
}

#[test]
fn clips_counter() {
    let pbh = PlaybackHandler::new(32);
    for length in [0u32, 1, 2, 56, 100] {
        for channel in (0..34u16).step_by(2) {
            let mut cue = Cue::empty();
            for i in 0..length {
                cue.events.set(
                    (i as usize).min(63),
                    Event::new(
                        i as u16 * 2,
                        EventDescription::PlaybackStart {
                            channel,
                            clip_idx: 0,
                            sample_offset: 0,
                        },
                    ),
                );
            }
            if channel <= 32 {
                assert_eq!(
                    pbh.num_channel_clips_in_cue(&cue, channel as usize),
                    length.min(64) as usize
                );
            } else {
                assert_eq!(pbh.num_channel_clips_in_cue(&cue, channel as usize), 0);
            }
        }
    }
}

// Negative current_sample pre-rolls as silence and performs no read.
#[test]
fn negative_sample_is_silence() {
    let mut dev = PlaybackCore::new(0, Vec::new());
    dev.active = true;
    dev.current_sample = -48;
    let out = dev.advance_with_len(true, 64, 48000);
    assert_eq!(out, PlaybackOut::Silence);
    assert!(dev.active);
    assert_eq!(dev.current_sample, -48);
}

// A cycle that would run past the clip's end disarms and stays silent.
#[test]
fn overrun_disarms() {
    let mut dev = PlaybackCore::new(0, Vec::new());
    dev.active = true;
    dev.current_sample = 95;
    let out = dev.advance_with_len(true, 64, 100);
    assert_eq!(out, PlaybackOut::Silence);
    assert!(!dev.active);
    // the tail cycle after disarm stays silent too
    let out2 = dev.advance_with_len(true, 64, 100);
    assert_eq!(out2, PlaybackOut::Silence);
}

#[test]
fn in_range_plays_and_advances() {
    let mut dev = PlaybackCore::new(0, Vec::new());
    dev.active = true;
    dev.current_sample = 0;
    let out = dev.advance_with_len(true, 64, 48000);
    assert_eq!(out, PlaybackOut::Clip { slot: 0, start: 0 });
    assert_eq!(dev.current_sample, 64);
    // stopped transport is always silence
    let out2 = dev.advance_with_len(false, 64, 48000);
    assert_eq!(out2, PlaybackOut::Silence);
    assert_eq!(dev.current_sample, 64);
}

// The armed slot index outside the slot array fails rather than reads.
#[test]
fn missing_slot_errors() {
    let mut dev = PlaybackCore::new(0, Vec::new());
    dev.active = true;
    dev.current_sample = 0;
    dev.current_clip = 3;
    let r = dev.send_buffer(true, 64);
    assert_eq!(r, Err(AudioSourceError::ClipIndexOutOfRange));
}

// Pre-fire arming with a negative offset aligns the clip on the boundary.
#[test]
fn prefire_arms_with_preroll() {
    let mut dev = PlaybackCore::new(0, Vec::new());
    let ev = Event::new(
        1,
        EventDescription::PlaybackStart { channel: 0, clip_idx: 0, sample_offset: -48 },
    );
    dev.event_will_occur(true, &ev);
    assert!(dev.active);
    assert_eq!(dev.current_sample, -48);
    // a stop on the same channel disarms
    let stop = Event::new(1, EventDescription::PlaybackStop { channel: 0 });
    dev.event_will_occur(true, &stop);
    assert!(!dev.active);
    // events for another channel are inert
    let other = Event::new(
        1,
        EventDescription::PlaybackStart { channel: 3, clip_idx: 0, sample_offset: 7 },
    );
    dev.event_will_occur(true, &other);
    assert!(!dev.active);
    assert_eq!(dev.current_sample, -48);
    // without boundary overrun the start is inert too
    let ev2 = Event::new(
        1,
        EventDescription::PlaybackStart { channel: 0, clip_idx: 0, sample_offset: 5 },
    );
    dev.event_will_occur(false, &ev2);
    assert!(!dev.active);
}

// The seek walk replays starts and stops and converts elapsed time.
#[test]
fn seek_walk_reconstructs_position() {
    let mut cue = cue_with_beats(&[500_000, 500_000, 500_000, 500_000]);
    cue.events.set(
        0,
        Event::new(
            1,
            EventDescription::PlaybackStart { channel: 2, clip_idx: 5, sample_offset: 100 },
        ),
    );
    let dev = PlaybackCore::new(2, Vec::new());
    // at beat 3 the clip has run beats 1 and 2: one second at 48 kHz
    let (clip, active, sample) = dev.calculate_time_at_beat(&cue, 3, 48000);
    assert_eq!(clip, 5);
    assert!(active);
    assert_eq!(sample, 100 + 48000);
    // a stop at beat 2 leaves it disarmed
    cue.events.set(1, Event::new(2, EventDescription::PlaybackStop { channel: 2 }));
    let (_, active2, _) = dev.calculate_time_at_beat(&cue, 3, 48000);
    assert!(!active2);
    // before the start event nothing runs
    let (_, active3, sample3) = dev.calculate_time_at_beat(&cue, 1, 48000);
    assert!(!active3);
    assert_eq!(sample3, 24000);
}

// Slot sizing takes the busiest cue per channel; the decode plan is the
// channel's distinct clips, sorted.
#[test]
fn slot_sizing_and_plan() {
    let mut cue_a = Cue::empty();
    cue_a.events.set(
        0,
        Event::new(0, EventDescription::PlaybackStart { channel: 0, clip_idx: 9, sample_offset: 0 }),
    );
    cue_a.events.set(
        1,
        Event::new(1, EventDescription::PlaybackStart { channel: 0, clip_idx: 3, sample_offset: 0 }),
    );
    cue_a.events.set(
        2,
        Event::new(2, EventDescription::PlaybackStart { channel: 0, clip_idx: 9, sample_offset: 0 }),
    );
    let mut cue_b = Cue::empty();
    cue_b.events.set(
        0,
        Event::new(0, EventDescription::PlaybackStart { channel: 1, clip_idx: 7, sample_offset: 0 }),
    );
    let show = clicks_core::model::Show { name: b"s".to_vec(), cues: vec![cue_a, cue_b] };

    let mut pbh = PlaybackHandler::new(2);
    pbh.load_show(&show);
    // channel 0: cue a references clips 9 and 3 (9 twice counts once);
    // channel 1: one clip
    assert_eq!(pbh.clips[0].len(), 2);
    assert_eq!(pbh.clips[1].len(), 1);

    // distinct clips for channel 0 in cue a, first appearance 9 then 3,
    // sorted ascending for decode order
    let plan = pbh.sorted_clips_for_channel(&show.cues[0], 0);
    assert_eq!(plan, vec![3, 9]);

    let devices = pbh.create_audio_sources();
    assert_eq!(devices.len(), 2);
    assert_eq!(devices[0].channel_idx, 0);
    assert_eq!(devices[1].channel_idx, 1);
    assert!(!devices[0].active);

    // publish through the handler, read through the shared device slot
    assert!(pbh.publish_clip(0, 0, 3, 1234));
    assert_eq!(devices[0].slots[0].read_index(), 3);
    assert_eq!(devices[0].slots[0].read_length(), 1234);
    // out-of-range slots are reported, not written
    assert!(!pbh.publish_clip(0, 5, 3, 1));
    assert!(!pbh.publish_clip(7, 0, 3, 1));
}
