//! SMPTE linear-timecode words and their biphase-mark waveform. An 80-bit
//! word carries the time digits, flags, user bits, a parity bit and the
//! sync pattern; the waveform flips polarity at every bit boundary and
//! again at the midpoint of every one-bit, then a small triangular FIR
//! softens the edges. Everything here is integer: amplitudes are unit
//! polarities scaled outside the core.

use vstd::prelude::*;
use crate::timecode::TimecodeInstant;

verus! {

/// How many of `x`'s binary digits are ones.
pub open spec fn popcount(x: u128) -> nat
    decreases x,
{
    if x == 0 {
        0
    } else {
        (x % 2 + popcount(x / 2)) as nat
    }
}

/// How many ones stand among the low `k` bits of `x`.
pub open spec fn ones_below(x: u128, k: int) -> int
    decreases k,
{
    if k <= 0 {
        0int
    } else {
        ones_below(x, k - 1) + if bit_at(x, k - 1) {
            1int
        } else {
            0int
        }
    }
}

/// Whether bit `k` of `x` is set.
pub open spec fn bit_at(x: u128, k: int) -> bool {
    (x >> k) % 2 == 1
}

/// The 80-bit SMPTE word for a time and flag set: frame units (offset by
/// one, modulo the rate) in bits 0–3, frame tens in 8–9, seconds in 16–19
/// and 24–26, minutes in 32–35 and 40–42, hours in 48–51 and 56–57, the
/// drop-frame, color-framing and external-clock flags in bits 10, 11 and
/// 58, the sync pattern in bits 64–79, and the parity bit (placed at 59
/// for 25 fps, else at 27) chosen so the whole word has evenly many ones.
pub open spec fn smpte_base_word(
    t: TimecodeInstant,
    drop_frame: bool,
    color_framing: bool,
    external_clock: bool,
) -> u128 {
    let f0 = ((t.f as int % 10 + 1) % (t.frame_rate as int)) as u128;
    let f1 = (t.f / 10) as u128;
    let s0 = (t.s % 10) as u128;
    let s1 = (t.s / 10) as u128;
    let m0 = (t.m % 10) as u128;
    let m1 = (t.m / 10) as u128;
    let h0 = (t.h % 10) as u128;
    let h1 = (t.h / 10) as u128;
    (f0 | (f1 << 8) | (s0 << 16) | (s1 << 24) | (m0 << 32) | (m1 << 40) | (h0 << 48) | (h1
        << 56) | ((if drop_frame {
        1u128
    } else {
        0u128
    }) << 10) | ((if color_framing {
        1u128
    } else {
        0u128
    }) << 11) | ((if external_clock {
        1u128
    } else {
        0u128
    }) << 58) | (0b1011111111111100u128 << 64)) as u128
}

/// The complete SMPTE word: the base word with its parity bit.
pub open spec fn smpte_word(
    t: TimecodeInstant,
    drop_frame: bool,
    color_framing: bool,
    external_clock: bool,
) -> u128 {
    let base = smpte_base_word(t, drop_frame, color_framing, external_clock);
    base | ((popcount(base) % 2) as u128) << (if t.frame_rate == 25 {
        59int
    } else {
        27int
    })
}

/// Count the ones of a word's binary form, modulo two.
pub fn even_parity_bit(data: u128) -> (r: u128)
    ensures
        r == popcount(data) % 2,
{
    let mut parity: u128 = 0;
    let mut rest: u128 = data;
    while rest != 0
        invariant
            parity < 2,
            (parity + popcount(rest)) % 2 == popcount(data) % 2,
        decreases rest,
    {
        parity = (parity + rest % 2) % 2;
        proof {
            assert(popcount(rest) == rest % 2 + popcount(rest / 2));
        }
        rest = rest / 2;
    }
    parity
}

/// Build the SMPTE word for a time: the base word with the parity bit set
/// where the rate calls for it, so the number of ones comes out even.
pub fn generate_smpte_frame_bits(
    t: &TimecodeInstant,
    drop_frame: bool,
    color_framing: bool,
    external_clock: bool,
) -> (r: u128)
    requires
        t.wf(),
    ensures
        ({
            let base = smpte_base_word(*t, drop_frame, color_framing, external_clock);
            r == base | ((popcount(base) % 2) as u128) << (if t.frame_rate == 25 {
                59int
            } else {
                27int
            })
        }),
{
    let f0: u128 = ((t.f % 10 + 1) % t.frame_rate) as u128;
    let f1: u128 = (t.f / 10) as u128;
    let s0: u128 = (t.s % 10) as u128;
    let s1: u128 = (t.s / 10) as u128;
    let m0: u128 = (t.m % 10) as u128;
    let m1: u128 = (t.m / 10) as u128;
    let h0: u128 = (t.h % 10) as u128;
    let h1: u128 = (t.h / 10) as u128;
    let mut t_enc: u128 = f0;
    t_enc = t_enc | (f1 << 8);
    t_enc = t_enc | (s0 << 16);
    t_enc = t_enc | (s1 << 24);
    t_enc = t_enc | (m0 << 32);
    t_enc = t_enc | (m1 << 40);
    t_enc = t_enc | (h0 << 48);
    t_enc = t_enc | (h1 << 56);
    t_enc = t_enc | ((if drop_frame {
        1u128
    } else {
        0u128
    }) << 10);
    t_enc = t_enc | ((if color_framing {
        1u128
    } else {
        0u128
    }) << 11);
    t_enc = t_enc | ((if external_clock {
        1u128
    } else {
        0u128
    }) << 58);
    t_enc = t_enc | (0b1011111111111100u128 << 64);
    let parity: u128 = even_parity_bit(t_enc);
    if t.frame_rate == 25 {
        t_enc | (parity << 59)
    } else {
        t_enc | (parity << 27)
    }
}

/// The biphase-mark polarity of sample `j` in a frame rendered at
/// `spb` samples per bit: the level starts high, flips at every bit
/// boundary and flips again at the midpoint of every one-bit.
pub open spec fn biphase_level(bits: u128, spb: int, j: int) -> int {
    let k = j / spb;
    let mid: int = if bit_at(bits, k) && j % spb >= spb / 2 {
        1int
    } else {
        0int
    };
    if (k + 1 + ones_below(bits, k) + mid) % 2 == 0 {
        1int
    } else {
        -1int
    }
}

/// One frame's worth of biphase polarities for an 80-bit word.
pub open spec fn biphase_seq(bits: u128, spb: int) -> Seq<int> {
    Seq::new((80 * spb) as nat, |j: int| biphase_level(bits, spb, j))
}

/// Render the biphase-mark polarity waveform of an 80-bit word, one
/// sample per entry, ±1.
pub fn generate_smpte_frame_buffer(bits: u128, samples_per_bit: usize) -> (r: Vec<i32>)
    requires
        2 <= samples_per_bit <= 8192,
    ensures
        r@.len() == 80 * samples_per_bit,
        forall|j: int| 0 <= j < r@.len() ==> r@[j] == biphase_level(
            bits,
            samples_per_bit as int,
            j,
        ),
{
    let spb = samples_per_bit;
    let mut buf: Vec<i32> = Vec::new();
    let mut level: i32 = 1;
    let mut bit_idx: usize = 0;
    while bit_idx < 80
        invariant
            2 <= spb <= 8192,
            bit_idx <= 80,
            buf@.len() == bit_idx * spb,
            forall|j: int| 0 <= j < buf@.len() ==> buf@[j] == biphase_level(bits, spb as int, j),
            level == if (bit_idx + ones_below(bits, bit_idx as int)) % 2 == 0 {
                1int
            } else {
                -1int
            },
        decreases 80 - bit_idx,
    {
        let bit_set: bool = (bits >> bit_idx as u128) % 2 == 1;
        proof {
            assert(bit_set == bit_at(bits, bit_idx as int));
        }
        let mut sample_idx: usize = 0;
        level = -level;
        let ghost level_start = level as int;
        while sample_idx < spb
            invariant
                2 <= spb <= 8192,
                bit_idx < 80,
                sample_idx <= spb,
                bit_set == bit_at(bits, bit_idx as int),
                buf@.len() == bit_idx * spb + sample_idx,
                forall|j: int| 0 <= j < buf@.len() ==> buf@[j] == biphase_level(bits,
                    spb as int, j),
                level_start == if (bit_idx + 1 + ones_below(bits, bit_idx as int)) % 2 == 0 {
                    1int
                } else {
                    -1int
                },
                level == if bit_set && sample_idx > spb / 2 {
                    -level_start
                } else {
                    level_start
                },
            decreases spb - sample_idx,
        {
            if sample_idx == spb / 2 && bit_set {
                level = -level;
            }
            proof {
                let j = (bit_idx * spb + sample_idx) as int;
                assert(j / (spb as int) == bit_idx && j % (spb as int) == sample_idx as int)
                    by (nonlinear_arith)
                    requires
                        0 < spb,
                        0 <= sample_idx < spb,
                        j == bit_idx * spb + sample_idx,
                ;
                assert(level == biphase_level(bits, spb as int, j));
            }
            buf.push(level);
            sample_idx += 1;
        }
        proof {
            assert(ones_below(bits, bit_idx + 1 as int) == ones_below(bits, bit_idx as int)
                + if bit_at(bits, bit_idx as int) {
                1int
            } else {
                0int
            });
            assert((bit_idx + 1) * spb == bit_idx * spb + spb) by (nonlinear_arith);
        }
        bit_idx += 1;
    }
    buf
}

/// Setting a clear bit raises the population count by exactly one.
proof fn lemma_popcount_set_bit(x: u128, k: u128)
    requires
        k < 128,
        (x >> k) % 2 == 0,
    ensures
        popcount(x | (1u128 << k)) == popcount(x) + 1,
    decreases k,
{
    if k == 0 {
        assert(x % 2 == 0 && x < 0xffffffffffffffffffffffffffffffffu128 && (x | 1u128) == x
            + 1 && (1u128 << k) == 1u128) by (bit_vector)
            requires
                k == 0,
                (x >> 0u128) % 2 == 0,
        ;
        assert(((x + 1) as u128) % 2 == 1 && ((x + 1) as u128) / 2 == x / 2);
        assert(popcount((x + 1) as u128) == 1 + popcount(x / 2));
        if x == 0 {
            assert(popcount(x) == 0);
            assert(popcount(x / 2) == 0);
        } else {
            assert(popcount(x) == x % 2 + popcount(x / 2));
        }
        assert(popcount(x | (1u128 << k)) == popcount(x) + 1);
    } else {
        let m = 1u128 << k;
        let y = x >> 1u128;
        let k1: u128 = (k - 1) as u128;
        assert((x | m) % 2 == x % 2 && (x | m) / 2 == (y | (1u128 << k1))
            && (y >> k1) % 2 == 0 && (x | m) != 0 && x / 2 == y) by (bit_vector)
            requires
                0 < k < 128,
                k1 == (k - 1) as u128,
                m == 1u128 << k,
                y == x >> 1u128,
                (x >> k) % 2 == 0,
        ;
        lemma_popcount_set_bit(y, k1);
        assert(popcount(x | m) == (x | m) % 2 + popcount((x | m) / 2));
        assert(popcount((x | m) / 2) == popcount(y) + 1);
        if x == 0 {
            assert(y == 0) by (bit_vector)
                requires
                    y == x >> 1u128,
                    x == 0,
            ;
            assert(popcount(x) == 0 && x % 2 == 0 && popcount(y) == 0);
            assert(popcount(x | m) == popcount(x) + 1);
        } else {
            assert(popcount(x) == x % 2 + popcount(y));
            assert(popcount(x | m) == popcount(x) + 1);
        }
    }
}

/// Law: the SMPTE word carries evenly many ones — the parity bit placed
/// at 59 for 25 fps and at 27 otherwise balances the base word. Holds
/// for the broadcast rates with in-range hours; the stop sentinel (hours
/// above 24) deliberately leaves this regime.
pub proof fn lemma_smpte_word_parity_even(
    t: TimecodeInstant,
    drop_frame: bool,
    color_framing: bool,
    external_clock: bool,
)
    requires
        t.wf(),
        t.frame_rate == 24 || t.frame_rate == 25 || t.frame_rate == 30,
        t.h <= 23,
    ensures
        popcount(smpte_word(t, drop_frame, color_framing, external_clock)) % 2 == 0,
{
    let f0 = ((t.f as int % 10 + 1) % (t.frame_rate as int)) as u128;
    let f1 = (t.f / 10) as u128;
    let s0 = (t.s % 10) as u128;
    let s1 = (t.s / 10) as u128;
    let m0 = (t.m % 10) as u128;
    let m1 = (t.m / 10) as u128;
    let h0 = (t.h % 10) as u128;
    let h1 = (t.h / 10) as u128;
    let df: u128 = if drop_frame { 1u128 } else { 0u128 };
    let cf: u128 = if color_framing { 1u128 } else { 0u128 };
    let ec: u128 = if external_clock { 1u128 } else { 0u128 };
    let w = (f0 | (f1 << 8) | (s0 << 16) | (s1 << 24) | (m0 << 32) | (m1 << 40) | (h0 << 48) | (
    h1 << 56) | (df << 10) | (cf << 11) | (ec << 58) | (0b1011111111111100u128 << 64)) as u128;
    let base = smpte_base_word(t, drop_frame, color_framing, external_clock);
    assert(base == w);
    assert((w >> 59u128) % 2 == 0 && (w >> 27u128) % 2 == 0) by (bit_vector)
        requires
            w == (f0 | (f1 << 8) | (s0 << 16) | (s1 << 24) | (m0 << 32) | (m1 << 40) | (h0
                << 48) | (h1 << 56) | (df << 10) | (cf << 11) | (ec << 58) | (
            0b1011111111111100u128 << 64)) as u128,
            f0 < 32,
            f1 < 4,
            s0 < 10,
            s1 < 6,
            m0 < 10,
            m1 < 6,
            h0 < 10,
            h1 < 3,
            df < 2,
            cf < 2,
            ec < 2,
    ;
    let p = popcount(base) % 2;
    let k: u128 = if t.frame_rate == 25 {
        59u128
    } else {
        27u128
    };
    let word = smpte_word(t, drop_frame, color_framing, external_clock);
    if p == 0 {
        assert(base | (0u128 << k) == base) by (bit_vector);
        assert(word == base);
    } else {
        assert((1u128) << k == 1u128 << k) by (bit_vector);
        lemma_popcount_set_bit(base, k);
        assert(word == (base | (1u128 << k)));
        assert(popcount(word) == popcount(base) + 1);
    }
}

/// The triangular-window FIR applied over a polarity sequence: each output
/// is the neighbour-weighted sum `x[j-1] + 2*x[j] + x[j+1]` in quarter
/// units, with the edges clamped.
pub open spec fn smooth_seq(x: Seq<int>) -> Seq<int> {
    Seq::new(x.len(), |j: int|
        x[if j == 0 { 0int } else { j - 1 }] + 2 * x[j]
            + x[if j + 1 == x.len() { j } else { j + 1 }])
}

/// Soften waveform edges with the triangular FIR. Input samples are unit
/// polarities; output samples are in quarter units (divide by four after
/// scaling by the desired amplitude).
pub fn smooth_triangular(x: &Vec<i32>) -> (r: Vec<i32>)
    requires
        x@.len() > 0,
        forall|j: int| 0 <= j < x@.len() ==> -1 <= #[trigger] x@[j] <= 1,
    ensures
        r@.len() == x@.len(),
        forall|j: int| 0 <= j < r@.len() ==> r@[j] == smooth_seq(x@.map_values(|v: i32| v as int))[j],
{
    let n = x.len();
    let mut r: Vec<i32> = Vec::new();
    let mut j: usize = 0;
    while j < n
        invariant
            n == x@.len(),
            0 < n,
            forall|k: int| 0 <= k < n ==> -1 <= #[trigger] x@[k] <= 1,
            j <= n,
            r@.len() == j,
            forall|k: int| 0 <= k < j ==> r@[k] == smooth_seq(x@.map_values(|v: i32| v as int))[k],
        decreases n - j,
    {
        let prev: i32 = if j == 0 {
            x[0]
        } else {
            x[j - 1]
        };
        let next: i32 = if j + 1 == n {
            x[j]
        } else {
            x[j + 1]
        };
        r.push(prev + 2 * x[j] + next);
        j += 1;
    }
    r
}

} // verus!
