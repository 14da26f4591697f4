use clicks_core::codec::{decode_show, encode_show, show_fits_format, DecodeError};
use clicks_core::model::{Beat, Cue, Event, EventDescription, Show};
use clicks_core::vlt::{JumpRequirement, VltAction};

fn sample_show() -> Show {
    let mut cue = Cue::empty();
    cue.human_ident = b"1.1".to_vec();
    cue.name = b"Overture".to_vec();
    cue.beats.push(Beat { count: 1, bar_number: 1, length_us: 500_000 });
    cue.beats.push(Beat { count: 2, bar_number: 1, length_us: 450_000 });
    cue.events.set(
        0,
        Event::new(
            0,
            EventDescription::PlaybackStart { channel: 2, clip_idx: 7, sample_offset: -48 },
        ),
    );
    cue.events.set(1, Event::new(1, EventDescription::PlaybackStop { channel: 2 }));
    cue.events.set(
        2,
        Event::new(1, EventDescription::TimecodeSet { h: 1, m: 2, s: 3, f: 4 }),
    );
    cue.events.set(
        3,
        Event::new(
            1,
            EventDescription::Jump {
                destination: 0,
                requirement: JumpRequirement::VltOn,
                when_jumped: VltAction::Toggle,
                when_passed: VltAction::SetOff,
            },
        ),
    );
    let empty = Cue::empty();
    Show { name: b"demo show".to_vec(), cues: vec![cue, empty] }
}

// A show written then read comes back exactly, and writing it again
// gives the same bytes.
#[test]
fn show_round_trips() {
    let show = sample_show();
    assert!(show_fits_format(&show));
    let bytes = encode_show(&show);
    let back = decode_show(&bytes).expect("own encoding decodes");
    assert_eq!(back.name, show.name);
    assert_eq!(back.cues.len(), show.cues.len());
    for (a, b) in back.cues.iter().zip(show.cues.iter()) {
        assert_eq!(a, b);
    }
    let again = encode_show(&back);
    assert_eq!(again, bytes);
}

// A wrong version word is rejected.
#[test]
fn wrong_version_rejected() {
    let show = sample_show();
    let mut bytes = encode_show(&show);
    bytes[1] = bytes[1].wrapping_add(1);
    assert_eq!(decode_show(&bytes), Err(DecodeError::Malformed));
}

// Truncated input is rejected.
#[test]
fn truncated_rejected() {
    let show = sample_show();
    let bytes = encode_show(&show);
    for cut in [0, 1, 5, bytes.len() / 2, bytes.len() - 1] {
        let short: Vec<u8> = bytes[..cut].to_vec();
        assert_eq!(decode_show(&short), Err(DecodeError::Malformed), "cut {}", cut);
    }
}

// Trailing bytes after a whole show are rejected.
#[test]
fn trailing_bytes_rejected() {
    let show = sample_show();
    let mut bytes = encode_show(&show);
    bytes.push(0);
    assert_eq!(decode_show(&bytes), Err(DecodeError::Malformed));
}

// An unknown event tag is rejected.
#[test]
fn bad_tag_rejected() {
    let mut bytes = encode_show(&sample_show());
    // flip every byte position until one parse fails differently from
    // success: the codec never panics, whatever the bytes
    let n = bytes.len();
    for i in 0..n {
        let old = bytes[i];
        bytes[i] = 0xFF;
        let _ = decode_show(&bytes);
        bytes[i] = old;
    }
    assert!(decode_show(&bytes).is_ok());
}

// An empty show still round-trips, and its bytes are exactly the
// version word and two zero counts.
#[test]
fn empty_show_round_trips() {
    let show = Show::empty();
    let bytes = encode_show(&show);
    assert_eq!(bytes, vec![0, 1, 0, 0, 0, 0]);
    let back = decode_show(&bytes).expect("empty show decodes");
    assert_eq!(back.cues.len(), 0);
    assert_eq!(back.name.len(), 0);
}

// One cue's encoding spells its parts out in order: lengths, beats,
// then all 64 event slots.
#[test]
fn cue_encoding_layout() {
    let mut cue = Cue::empty();
    cue.human_ident = vec![0x41];
    cue.beats.push(Beat { count: 1, bar_number: 2, length_us: 0x01020304 });
    let show = Show { name: Vec::new(), cues: vec![cue] };
    let bytes = encode_show(&show);
    let mut expect: Vec<u8> = vec![
        0, 1, // version
        0, 0, // show name, empty
        0, 1, // one cue
        0, 1, 0x41, // ident "A"
        0, 0, // cue name, empty
        0, 1, // one beat
        0, 1, 0, 2, 1, 2, 3, 4, // count, bar, length
    ];
    expect.extend(std::iter::repeat(0u8).take(64)); // empty slots
    assert_eq!(bytes, expect);
}
