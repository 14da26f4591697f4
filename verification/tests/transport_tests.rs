use clicks_core::metronome::{MetronomeCore, MetronomeOut};
use clicks_core::model::{Beat, Cue, Event, EventDescription, Show};
use clicks_core::processor::{
    ProcessorCore, SourceConfig, SourceCore, SourceOut, SourceUnit,
};
use clicks_core::protocol::{ControlAction, MessageKind, Notification};
use clicks_core::vlt::{apply_vlt, JumpRequirement, VltAction};

fn four_beat_cue() -> Cue {
    let mut cue = Cue::empty();
    for i in 0..4u16 {
        cue.beats.push(Beat { count: i + 1, bar_number: 1, length_us: 500_000 });
    }
    cue
}

fn test_show() -> Show {
    Show { name: b"demo".to_vec(), cues: vec![four_beat_cue(), four_beat_cue()] }
}

fn test_processor() -> ProcessorCore {
    let sources = vec![
        SourceUnit {
            config: SourceConfig::new("metronome".to_string()),
            core: SourceCore::Metronome(MetronomeCore::new()),
        },
        SourceUnit {
            config: SourceConfig::new("timecode".to_string()),
            core: SourceCore::Timecode(clicks_core::ltc::TimecodeCore::new(25)),
        },
    ];
    ProcessorCore::new(test_show(), sources)
}

// Toggle inverts, Keep holds, SetOn and SetOff force; two Toggles cancel.
#[test]
fn vlt_actions() {
    assert_eq!(apply_vlt(VltAction::Toggle, false), true);
    assert_eq!(apply_vlt(VltAction::Toggle, true), false);
    assert_eq!(apply_vlt(VltAction::Keep, true), true);
    assert_eq!(apply_vlt(VltAction::Keep, false), false);
    assert_eq!(apply_vlt(VltAction::SetOn, false), true);
    assert_eq!(apply_vlt(VltAction::SetOff, true), false);
    for v in [false, true] {
        assert_eq!(apply_vlt(VltAction::Toggle, apply_vlt(VltAction::Toggle, v)), v);
    }
}

// After TransportZero the metronome stands at beat zero with a cleared
// beat clock.
#[test]
fn transport_zero_resets() {
    let mut m = MetronomeCore::new();
    m.state.beat_idx = 7;
    m.state.next_beat_idx = 8;
    m.last_beat_time = 123456;
    m.command(ControlAction::TransportZero);
    assert_eq!(m.state.beat_idx, 0);
    assert_eq!(m.state.next_beat_idx, 0);
    assert_eq!(m.last_beat_time, 0);
}

// Loading a cue in range stops the transport and lands on the index;
// out of range nothing at all changes.
#[test]
fn load_cue_by_index() {
    let mut p = test_processor();
    p.transport.running = true;
    let notes = p.handle_command(48000, ControlAction::LoadCueByIndex(1));
    assert_eq!(p.cue_idx, 1);
    assert!(!p.transport.running);
    assert_eq!(notes.len(), 1);
    match &notes[0] {
        Notification::CueData { cue_idx, cue } => {
            assert_eq!(*cue_idx, 1);
            assert_eq!(cue.beats.len(), 4);
        }
        other => panic!("expected cue data, got {:?}", other),
    }

    p.transport.running = true;
    let notes2 = p.handle_command(48000, ControlAction::LoadCueByIndex(9));
    assert_eq!(p.cue_idx, 1);
    assert!(p.transport.running);
    assert!(notes2.is_empty());
}

// Loading the same cue twice is deterministic: the second load leaves
// the same state and announces an identical payload.
#[test]
fn load_cue_twice_identical() {
    let mut p = test_processor();
    let notes1 = p.handle_command(48000, ControlAction::LoadCueByIndex(1));
    let cue_idx_after = p.cue_idx;
    let running_after = p.transport.running;
    let notes2 = p.handle_command(48000, ControlAction::LoadCueByIndex(1));
    assert_eq!(p.cue_idx, cue_idx_after);
    assert_eq!(p.transport.running, running_after);
    assert_eq!(notes1.len(), 1);
    assert_eq!(notes2.len(), 1);
    match (&notes1[0], &notes2[0]) {
        (
            Notification::CueData { cue_idx: i1, cue: c1 },
            Notification::CueData { cue_idx: i2, cue: c2 },
        ) => {
            assert_eq!(i1, i2);
            assert_eq!(c1, c2);
        }
        _ => panic!("expected cue data twice"),
    }
}

// Caching the same gain twice is one caching; the cache is the last set.
#[test]
fn set_gain_idempotent() {
    let mut p = test_processor();
    p.handle_command(48000, ControlAction::SetChannelGain(0, -6000));
    assert_eq!(p.sources[0].config.get_gain(), -6000);
    p.handle_command(48000, ControlAction::SetChannelGain(0, -6000));
    assert_eq!(p.sources[0].config.get_gain(), -6000);
    p.handle_command(48000, ControlAction::SetChannelGain(0, 1500));
    assert_eq!(p.sources[0].config.get_gain(), 1500);
    // a channel index past the sources is ignored
    p.handle_command(48000, ControlAction::SetChannelGain(9, 3));
    assert_eq!(p.sources[0].config.get_gain(), 1500);
}

// A run through one cue: beats advance on schedule, the cue exhausts,
// the transport stops and the next cue is scheduled.
#[test]
fn basic_transport_run() {
    let mut p = test_processor();
    let r0 = p.cycle(0, 64, 48000, vec![
        ControlAction::LoadCueByIndex(0),
        ControlAction::TransportStart,
    ]);
    assert!(!r0.quit);
    assert!(p.transport.running);
    assert_eq!(p.beat_state().beat_idx, 0);

    // first beat fires once the clock passes the first beat's length
    let r1 = p.cycle(600_000, 64, 48000, Vec::new());
    assert_eq!(p.beat_state().beat_idx, 0);
    assert_eq!(p.beat_state().next_beat_idx, 1);
    assert!(matches!(r1.directives[0].out, SourceOut::Click { .. }));

    // walk through the remaining beats (the clock rebased to 600 ms)
    p.cycle(1_200_000, 64, 48000, Vec::new());
    assert_eq!(p.beat_state().beat_idx, 1);
    p.cycle(1_800_000, 64, 48000, Vec::new());
    assert_eq!(p.beat_state().beat_idx, 2);
    let r4 = p.cycle(2_400_000, 64, 48000, Vec::new());
    assert_eq!(p.beat_state().beat_idx, 3);

    // no beat stands after the last: the cycle that notices stops the
    // transport and schedules stop, next cue, zero onto itself
    let r5 = p.cycle(2_500_000, 64, 48000, Vec::new());
    let exhausted = if r4.loopback.is_empty() { &r5 } else { &r4 };
    assert_eq!(
        exhausted.loopback,
        vec![
            ControlAction::TransportStop,
            ControlAction::LoadNextCue,
            ControlAction::TransportZero,
        ]
    );
    assert!(!p.transport.running);

    // the loopback commands land next cycle: cue advances, position zero
    p.cycle(2_600_000, 64, 48000, exhausted.loopback.clone());
    assert_eq!(p.cue_idx, 1);
    assert_eq!(p.beat_state().beat_idx, 0);
    assert_eq!(p.beat_state().next_beat_idx, 0);
}

// A jump event at beat 2: with VLT on the jump is taken and its action
// applied; with VLT off it is passed over.
#[test]
fn jump_respects_vlt() {
    for (vlt, expect_next, expect_vlt_after) in
        [(true, 5u16, false), (false, 3u16, false)] {
        let mut cue = four_beat_cue();
        for _ in 0..4 {
            cue.beats.push(Beat { count: 1, bar_number: 2, length_us: 500_000 });
        }
        cue.events.set(
            0,
            Event::new(
                2,
                EventDescription::Jump {
                    destination: 5,
                    requirement: JumpRequirement::VltOn,
                    when_jumped: VltAction::SetOff,
                    when_passed: VltAction::Keep,
                },
            ),
        );
        let sources = vec![SourceUnit {
            config: SourceConfig::new("metronome".to_string()),
            core: SourceCore::Metronome(MetronomeCore::new()),
        }];
        let show = Show { name: Vec::new(), cues: vec![cue] };
        let mut p = ProcessorCore::new(show, sources);
        p.cycle(0, 64, 48000, vec![
            ControlAction::LoadCueByIndex(0),
            ControlAction::TransportStart,
        ]);
        if vlt {
            p.cycle(0, 64, 48000, vec![ControlAction::ChangeJumpMode(VltAction::SetOn)]);
        }
        // advance to beat 2: fires at 0.5s (beat 0), 1.0+, 1.5+
        p.cycle(600_000, 64, 48000, Vec::new());
        p.cycle(1_200_000, 64, 48000, Vec::new());
        p.cycle(1_800_000, 64, 48000, Vec::new());
        let bs = p.beat_state();
        assert_eq!(bs.beat_idx, 2);
        assert_eq!(bs.next_beat_idx, expect_next, "vlt={}", vlt);
        // the requested action is applied on the following cycle
        p.cycle(1_850_000, 64, 48000, Vec::new());
        assert_eq!(p.transport.vlt, expect_vlt_after);
    }
}

// While the playrate is off 100%, every port but the first is muted.
#[test]
fn playrate_mutes_other_ports() {
    let mut p = test_processor();
    let r = p.cycle(0, 64, 48000, vec![ControlAction::ChangePlayrate(80)]);
    assert_eq!(p.transport.playrate_percent, 80);
    assert!(!r.directives[0].mute);
    assert!(r.directives[1].mute);
    // a zero playrate is rejected, and 100% unmutes
    let r2 = p.cycle(0, 64, 48000, vec![ControlAction::ChangePlayrate(0)]);
    assert_eq!(p.transport.playrate_percent, 80);
    assert!(r2.directives[1].mute);
    let r3 = p.cycle(0, 64, 48000, vec![ControlAction::ChangePlayrate(100)]);
    assert!(!r3.directives[1].mute);
}

// A beat index parked far out (as after a wild seek) does not trip the
// cue-exhaustion path: the sentinel guards against a just-loaded cue.
#[test]
fn exhaustion_sentinel() {
    let mut p = test_processor();
    p.cycle(0, 64, 48000, vec![
        ControlAction::LoadCueByIndex(0),
        ControlAction::TransportStart,
        ControlAction::TransportSeekBeat(40000),
    ]);
    // the seek retargets the next beat; no beat stands there, so the
    // metronome holds still and the high next index never lands
    let r = p.cycle(600_000, 64, 48000, Vec::new());
    assert!(r.loopback.is_empty() || p.beat_state().beat_idx < 32767);

    // force the parked index directly on a bare metronome
    let mut m = MetronomeCore::new();
    m.command(ControlAction::TransportSeekBeat(40000));
    assert_eq!(m.state.next_beat_idx, 40000);
    let cue = four_beat_cue();
    // no beat at 40000: the tick is silent and nothing moves
    let out = m.tick(&cue, true, 1_000_000, 100);
    assert_eq!(out, MetronomeOut::Silence);
    assert_eq!(m.state.beat_idx, 0);
}

// The time to the next beat saturates rather than wraps on enormous
// beat lengths, and halves at double playrate.
#[test]
fn us_to_next_bounds() {
    let mut cue = Cue::empty();
    cue.beats.push(Beat { count: 1, bar_number: 1, length_us: u32::MAX });
    let m = MetronomeCore::new();
    assert_eq!(m.us_to_next(&cue, 0, 1), u32::MAX);
    assert_eq!(m.us_to_next(&cue, 0, 100), u32::MAX);
    let mut short = Cue::empty();
    short.beats.push(Beat { count: 1, bar_number: 1, length_us: 500_000 });
    assert_eq!(m.us_to_next(&short, 0, 100), 500_000);
    assert_eq!(m.us_to_next(&short, 0, 200), 250_000);
    assert_eq!(m.us_to_next(&short, 499_000, 100), 1_000);
    assert_eq!(m.us_to_next(&short, 600_000, 100), 0);
    // past the beat table the distance reads zero
    let empty = Cue::empty();
    assert_eq!(m.us_to_next(&empty, 0, 100), 0);
}

// Once started, the timecode port carries a frame-sized window of the
// waveform; a mute request is taken in without observable effect.
#[test]
fn timecode_port_produces_waveform() {
    let mut p = test_processor();
    let r = p.cycle(0, 64, 48000, vec![
        ControlAction::LoadCueByIndex(0),
        ControlAction::TransportStart,
    ]);
    match &r.directives[1].out {
        SourceOut::Ltc { samples } => assert_eq!(samples.len(), 64),
        other => panic!("expected a timecode window, got silence: {:?}", matches!(other, SourceOut::Silence)),
    }
    let before_gain = p.sources[1].config.get_gain();
    let notes = p.handle_command(48000, ControlAction::SetChannelMute(1, true));
    assert!(notes.is_empty());
    assert_eq!(p.sources[1].config.get_gain(), before_gain);
}

// A playback device armed at a slot it does not have fails its port;
// the cycle reports exactly that failure.
#[test]
fn source_failure_quits() {
    let mut dev = clicks_core::playback::PlaybackCore::new(0, Vec::new());
    dev.active = true;
    dev.current_sample = 0;
    dev.current_clip = 2;
    let sources = vec![
        SourceUnit {
            config: SourceConfig::new("metronome".to_string()),
            core: SourceCore::Metronome(MetronomeCore::new()),
        },
        SourceUnit {
            config: SourceConfig::new("playback_0".to_string()),
            core: SourceCore::Playback(dev),
        },
    ];
    let mut p = ProcessorCore::new(test_show(), sources);
    let quiet = p.cycle(0, 64, 48000, Vec::new());
    assert!(!quiet.quit);
    let r = p.cycle(0, 64, 48000, vec![ControlAction::TransportStart]);
    assert!(r.quit);
    assert!(r.directives[1].failed);
    assert!(matches!(r.directives[1].out, SourceOut::Silence));
    assert!(!r.directives[0].failed);
}

// DumpStatus announces all four status notifications in order.
#[test]
fn dump_status_kinds() {
    let mut p = test_processor();
    let notes = p.handle_command(48000, ControlAction::DumpStatus);
    let kinds: Vec<MessageKind> = notes.iter().map(|n| n.kind()).collect();
    assert_eq!(
        kinds,
        vec![
            MessageKind::CueData,
            MessageKind::ShowData,
            MessageKind::BeatData,
            MessageKind::TransportData,
        ]
    );
}
