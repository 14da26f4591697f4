use clicks_core::ltc::TimecodeCore;
use clicks_core::model::{Cue, Event, EventDescription};
use clicks_core::smpte::{
    even_parity_bit, generate_smpte_frame_bits, generate_smpte_frame_buffer, smooth_triangular,
};
use clicks_core::timecode::TimecodeInstant;

// Any run of progress additions lands on the sum, normalized for the
// frame rate.
#[test]
fn progress_accumulates_normalized() {
    let mut t = TimecodeInstant::new(25);
    let mut total: u64 = 0;
    for p in [40000u16, 65535, 30000, 65535, 12345, 65535, 65535] {
        t.add_progress(p);
        total += p as u64;
    }
    assert!(t.f < 25 && t.s < 60 && t.m < 60);
    assert_eq!(t.units(), total);
}

// A fraction just below a whole frame plus one sample's worth of
// progress increments the frame number.
#[test]
fn progress_overflow_increments_frame() {
    let mut t = TimecodeInstant::new(25);
    t.add_progress(65535);
    assert_eq!(t.f, 0);
    assert_eq!(t.frame_progress, 65535);
    // one 48 kHz sample at 25 fps covers 65536*25/48000 ≈ 34 units
    t.add_progress(34);
    assert_eq!(t.f, 1);
    assert_eq!(t.frame_progress, 33);
}

// Whole-frame carries run up the chain: frames into seconds, seconds
// into minutes, minutes into hours.
#[test]
fn carries_run_up() {
    let mut t = TimecodeInstant::new(30);
    // one hour minus one frame-fraction unit
    let one_hour: u64 = 3600 * 30 * 65536;
    t.set_from_units(one_hour - 1);
    assert_eq!((t.h, t.m, t.s, t.f), (0, 59, 59, 29));
    assert_eq!(t.frame_progress, 65535);
    t.add_progress(1);
    assert_eq!((t.h, t.m, t.s, t.f), (1, 0, 0, 0));
    assert_eq!(t.frame_progress, 0);
}

#[test]
fn add_and_sub_us() {
    let mut t = TimecodeInstant::new(25);
    t.add_us(1_000_000);
    assert_eq!((t.h, t.m, t.s, t.f, t.frame_progress), (0, 0, 1, 0, 0));
    t.sub_us(40_000);
    assert_eq!((t.h, t.m, t.s, t.f), (0, 0, 0, 24));
    // backing up past zero stops at zero
    t.sub_us(10_000_000);
    assert_eq!(t.units(), 0);
}

// The SMPTE word for midnight at 25 fps has evenly many ones; the parity
// bit at 59 is what makes it so.
#[test]
fn smpte_parity_even() {
    let t = TimecodeInstant::new(25);
    let word = generate_smpte_frame_bits(&t, false, false, false);
    assert_eq!(even_parity_bit(word), 0);
    // the sync pattern sits at bits 64..79
    assert_eq!((word >> 64) & 0xffff, 0b1011111111111100);
    // frame units carry the offset-by-one: (0%10+1)%25 == 1
    assert_eq!(word & 0xf, 1);
}

// Biphase mark: the polarity flips at every bit boundary and again at
// the midpoint of every one-bit.
#[test]
fn biphase_shape() {
    let t = TimecodeInstant::new(25);
    let word = generate_smpte_frame_bits(&t, false, false, false);
    let spb = 24usize;
    let buf = generate_smpte_frame_buffer(word, spb);
    assert_eq!(buf.len(), 80 * spb);
    for bit in 0..80usize {
        let one = (word >> bit) & 1 == 1;
        let first = buf[bit * spb];
        if bit > 0 {
            assert_eq!(first, -buf[bit * spb - 1], "boundary flip at bit {}", bit);
        }
        if one {
            assert_eq!(buf[bit * spb + spb / 2], -first, "midpoint flip at bit {}", bit);
        } else {
            assert_eq!(buf[bit * spb + spb - 1], first, "level held at bit {}", bit);
        }
    }
}

// Rise and fall times of the smoothed waveform at 48 kHz / 25 fps sit in
// the 40–65 microsecond window.
#[test]
fn rise_time_in_window() {
    let t = TimecodeInstant::new(25);
    let word = generate_smpte_frame_bits(&t, false, false, false);
    let buf = generate_smpte_frame_buffer(word, 24);
    let sm = smooth_triangular(&buf);
    let full = 4.0f32;
    let lo = -0.8f32 * full;
    let hi = 0.8f32 * full;
    let mut checked = 0;
    let mut j = 1usize;
    while j + 3 < sm.len() {
        // a full rising edge: -4 .. +4 over the FIR's support
        if sm[j - 1] == -4 && sm[j + 2] == 4 {
            let y: Vec<f32> = (j - 1..j + 3).map(|k| sm[k] as f32).collect();
            let mut t_lo = 0.0f32;
            let mut t_hi = 0.0f32;
            for k in 0..3 {
                if y[k] <= lo && lo < y[k + 1] {
                    t_lo = k as f32 + (lo - y[k]) / (y[k + 1] - y[k]);
                }
                if y[k] < hi && hi <= y[k + 1] {
                    t_hi = k as f32 + (hi - y[k]) / (y[k + 1] - y[k]);
                }
            }
            let rise_us = (t_hi - t_lo) * 1_000_000.0 / 48000.0;
            assert!(
                40.0 <= rise_us && rise_us <= 65.0,
                "rise time {} out of window",
                rise_us
            );
            checked += 1;
        }
        j += 1;
    }
    assert!(checked > 0, "no full rising edge found");
}

// A timecode-set event pre-fires: the clock rebases at frame start; the
// stop sentinel (hours above 24) disables the source instead.
#[test]
fn timecode_set_prefire() {
    let mut src = TimecodeCore::new(25);
    let ev = Event::new(3, EventDescription::TimecodeSet { h: 10, m: 20, s: 30, f: 12 });
    src.event_will_occur(&ev);
    assert!(src.active);
    assert_eq!(
        (src.current_time.h, src.current_time.m, src.current_time.s, src.current_time.f),
        (10, 20, 30, 12)
    );
    assert_eq!(src.current_time.frame_progress, 0);

    let stop = Event::new(4, EventDescription::TimecodeSet { h: 25, m: 0, s: 0, f: 0 });
    src.event_will_occur(&stop);
    assert!(!src.active);
}

// While running, a cycle advances the clock by its share of a frame and
// hands out a window of the ring.
#[test]
fn ltc_cycle_advances_and_windows() {
    let mut src = TimecodeCore::new(25);
    src.active = true;
    let before = src.current_time.units();
    let out = src.send_buffer(true, 64, 48000);
    let w = out.expect("running source yields a window");
    assert_eq!(w.len(), 64);
    // 64 samples at 48 kHz / 25 fps: 64*25*65536/48000 units
    assert_eq!(src.current_time.units(), before + 64 * 25 * 65536 / 48000);
    // stopped: silence, nothing moves
    let t_units = src.current_time.units();
    assert!(src.send_buffer(false, 64, 48000).is_none());
    assert_eq!(src.current_time.units(), t_units);
}

// Jump re-seats the timecode from the cue's timecode-set events.
#[test]
fn timecode_seek_walk() {
    let mut cue = Cue::empty();
    for _ in 0..4 {
        cue.beats.push(clicks_core::model::Beat { count: 1, bar_number: 1, length_us: 1_000_000 });
    }
    cue.events.set(
        0,
        Event::new(1, EventDescription::TimecodeSet { h: 1, m: 0, s: 0, f: 0 }),
    );
    let mut src = TimecodeCore::new(25);
    src.command(&cue, 0, clicks_core::protocol::ControlAction::TransportJumpBeat(3));
    // two seconds after 01:00:00:00
    assert_eq!(
        (src.current_time.h, src.current_time.m, src.current_time.s, src.current_time.f),
        (1, 0, 2, 0)
    );
}
