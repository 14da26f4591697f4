//! SMPTE timecode instants. An instant is hours, minutes, seconds, frames
//! and a 16-bit fraction of a frame; the frame rate says how many frames a
//! second holds. All mutation goes through one normalization routine whose
//! contract equates the fields with a single count of fraction units, so
//! that adding progress composes exactly.

use vstd::prelude::*;
use vstd::arithmetic::div_mod::lemma_fundamental_div_mod;

verus! {

/// A point in SMPTE time. `frame_progress` is a fraction of a frame in
/// 1/65536 units; `frame_rate` is frames per second (24, 25 or 30 in use).
#[derive(Clone, Copy, Debug, PartialEq, Eq, Structural)]
pub struct TimecodeInstant {
    pub h: u16,
    pub m: u16,
    pub s: u16,
    pub f: u16,
    pub frame_progress: u16,
    pub frame_rate: u16,
}

impl TimecodeInstant {
    /// Normalized-timecode constraint: every field below its modulus.
    pub open spec fn wf(self) -> bool {
        &&& 0 < self.frame_rate
        &&& (self.f as int) < (self.frame_rate as int)
        &&& self.s < 60
        &&& self.m < 60
    }

    /// The instant as one count of 1/65536-of-a-frame units.
    pub open spec fn total_units(self) -> int {
        ((((self.h as int) * 3600 + (self.m as int) * 60 + (self.s as int))
            * (self.frame_rate as int) + (self.f as int)) * 65536)
            + (self.frame_progress as int)
    }

    /// Largest unit count whose hour field still fits in `u16`, for a rate.
    pub open spec fn units_limit(rate: u16) -> int {
        65536int * 3600 * 65536 * (rate as int)
    }

    /// A zeroed instant at the given rate.
    pub fn new(frame_rate: u16) -> (r: TimecodeInstant)
        requires
            0 < frame_rate,
        ensures
            r.wf(),
            r.frame_rate == frame_rate,
            r.total_units() == 0,
    {
        proof {
            assert(0int * (frame_rate as int) == 0) by (nonlinear_arith);
        }
        TimecodeInstant { h: 0, m: 0, s: 0, f: 0, frame_progress: 0, frame_rate }
    }

    /// Rewrite the fields from a single unit count, normalizing each field
    /// below its modulus. The count must leave the hour field within `u16`.
    pub fn set_from_units(&mut self, total: u64)
        requires
            0 < old(self).frame_rate,
            (total as int) < Self::units_limit(old(self).frame_rate),
        ensures
            final(self).wf(),
            final(self).frame_rate == old(self).frame_rate,
            final(self).total_units() == total as int,
    {
        let rate: u64 = self.frame_rate as u64;
        let fp: u64 = total % 65536;
        let frames: u64 = total / 65536;
        let f: u64 = frames % rate;
        let secs: u64 = frames / rate;
        let s: u64 = secs % 60;
        let mins: u64 = secs / 60;
        let m: u64 = mins % 60;
        let h: u64 = mins / 60;
        proof {
            lemma_fundamental_div_mod(total as int, 65536int);
            lemma_fundamental_div_mod(frames as int, rate as int);
            lemma_fundamental_div_mod(secs as int, 60int);
            lemma_fundamental_div_mod(mins as int, 60int);
            assert(h < 65536) by (nonlinear_arith)
                requires
                    (total as int) < 65536int * 3600 * 65536 * (rate as int),
                    0 < rate,
                    frames as int == (total as int) / 65536,
                    secs as int == (frames as int) / (rate as int),
                    mins as int == (secs as int) / 60,
                    h as int == (mins as int) / 60,
            {
                assert((frames as int) < 3600int * 65536 * 65536 * (rate as int));
                assert((secs as int) < 3600int * 65536 * 65536);
                assert((mins as int) < 60int * 65536 * 65536 / 60);
            }
            assert(((h as int) * 3600 + (m as int) * 60 + (s as int)) == secs as int)
                by (nonlinear_arith)
                requires
                    mins as int == 60 * (h as int) + (m as int),
                    secs as int == 60 * (mins as int) + (s as int),
            ;
            assert((((h as int) * 3600 + (m as int) * 60 + (s as int)) * (rate as int)
                + (f as int)) == frames as int) by (nonlinear_arith)
                requires
                    ((h as int) * 3600 + (m as int) * 60 + (s as int)) == secs as int,
                    frames as int == (rate as int) * (secs as int) + (f as int),
            ;
        }
        self.h = h as u16;
        self.m = m as u16;
        self.s = s as u16;
        self.f = f as u16;
        self.frame_progress = fp as u16;
    }

    /// Advance the instant by a fraction-of-frame count. Overflow of the
    /// fraction carries into frames, frames into seconds, and so on,
    /// respecting the frame rate.
    pub fn add_progress(&mut self, progress: u16)
        requires
            old(self).wf(),
            old(self).total_units() + progress < Self::units_limit(old(self).frame_rate),
        ensures
            final(self).wf(),
            final(self).frame_rate == old(self).frame_rate,
            final(self).total_units() == old(self).total_units() + progress,
    {
        proof {
            lemma_units_limit_bound(old(self).frame_rate);
        }
        let total: u64 = self.units() + progress as u64;
        self.set_from_units(total);
    }

    /// The unit count as an executable value.
    pub fn units(&self) -> (r: u64)
        requires
            self.wf(),
        ensures
            r as int == self.total_units(),
    {
        proof {
            assert(((((self.h as int) * 3600 + (self.m as int) * 60 + (self.s as int))
                * (self.frame_rate as int) + (self.f as int)) * 65536)
                + (self.frame_progress as int) < 0x8000_0000_0000_0000) by (nonlinear_arith)
                requires
                    self.h < 65536,
                    self.m < 60,
                    self.s < 60,
                    (self.f as int) < (self.frame_rate as int),
                    self.frame_rate < 65536,
            ;
        }
        (((self.h as u64) * 3600 + (self.m as u64) * 60 + (self.s as u64))
            * (self.frame_rate as u64) + (self.f as u64)) * 65536
            + (self.frame_progress as u64)
    }

    /// How many fraction units a span of microseconds covers at a rate:
    /// `us * rate * 65536 / 1_000_000`, rounded down.
    pub open spec fn us_to_units(us: int, rate: int) -> int {
        us * rate * 65536 / 1_000_000
    }

    /// Convert microseconds to fraction units at this instant's rate.
    pub fn units_of_us(&self, us: u64) -> (r: u64)
        requires
            us < 0x1_0000_0000_0000,
            0 < self.frame_rate,
        ensures
            r as int == Self::us_to_units(us as int, self.frame_rate as int),
    {
        proof {
            assert((us as int) * (self.frame_rate as int) < 0x1_0000_0000_0000_0000)
                by (nonlinear_arith)
                requires
                    us < 0x1_0000_0000_0000,
                    self.frame_rate < 65536,
            ;
            vstd::arithmetic::div_mod::lemma_div_is_ordered(
                (us as int) * (self.frame_rate as int) * 65536,
                0x1_0000_0000_0000_0000int * 65536 - 1,
                1_000_000int,
            );
            vstd::arithmetic::div_mod::lemma_div_pos_is_pos(
                (us as int) * (self.frame_rate as int) * 65536,
                1_000_000int,
            );
        }
        let wide: u128 = (us as u128) * (self.frame_rate as u128) * 65536 / 1_000_000;
        wide as u64
    }

    /// Move the instant forward by a span of microseconds.
    pub fn add_us(&mut self, us: u64)
        requires
            old(self).wf(),
            us < 0x1_0000_0000_0000,
            old(self).total_units()
                + Self::us_to_units(us as int, old(self).frame_rate as int)
                < Self::units_limit(old(self).frame_rate),
        ensures
            final(self).wf(),
            final(self).frame_rate == old(self).frame_rate,
            final(self).total_units() == old(self).total_units()
                + Self::us_to_units(us as int, old(self).frame_rate as int),
    {
        let add: u64 = self.units_of_us(us);
        proof {
            lemma_units_limit_bound(old(self).frame_rate);
        }
        let total: u64 = self.units() + add;
        self.set_from_units(total);
    }

    /// Move the instant back by a span of microseconds, stopping at zero.
    pub fn sub_us(&mut self, us: u64)
        requires
            old(self).wf(),
            us < 0x1_0000_0000_0000,
        ensures
            final(self).wf(),
            final(self).frame_rate == old(self).frame_rate,
            final(self).total_units() == if old(self).total_units()
                >= Self::us_to_units(us as int, old(self).frame_rate as int) {
                old(self).total_units()
                    - Self::us_to_units(us as int, old(self).frame_rate as int)
            } else {
                0int
            },
    {
        let sub: u64 = self.units_of_us(us);
        let have: u64 = self.units();
        let total: u64 = if have >= sub {
            have - sub
        } else {
            0
        };
        proof {
            let th = old(self).h as int;
            let tm = old(self).m as int;
            let ts = old(self).s as int;
            let tf = old(self).f as int;
            let tp = old(self).frame_progress as int;
            let tr = old(self).frame_rate as int;
            assert(((th * 3600 + tm * 60 + ts) * tr + tf) * 65536 + tp
                < 65536int * 3600 * 65536 * tr) by (nonlinear_arith)
                requires
                    th < 65536,
                    tm < 60,
                    ts < 60,
                    tf < tr,
                    tp < 65536,
                    0 < tr,
            ;
        }
        self.set_from_units(total);
    }

    /// The unit-count ceiling as an executable value.
    pub fn units_limit_exec(&self) -> (r: u64)
        requires
            0 < self.frame_rate,
        ensures
            r as int == Self::units_limit(self.frame_rate),
    {
        proof {
            lemma_units_limit_bound(self.frame_rate);
            assert(65536int * 3600 * 65536 * (self.frame_rate as int) > 0) by (nonlinear_arith)
                requires
                    0 < self.frame_rate,
            ;
        }
        65536u64 * 3600 * 65536 * (self.frame_rate as u64)
    }

    /// Advance the instant by a unit count, stopping just short of the
    /// point where the hour field would leave `u16`.
    pub fn add_units_clamped(&mut self, units: u64)
        requires
            old(self).wf(),
            units < 0x2000_0000_0000_0000,
        ensures
            final(self).wf(),
            final(self).frame_rate == old(self).frame_rate,
            final(self).total_units() == if old(self).total_units() + units
                < Self::units_limit(old(self).frame_rate) {
                old(self).total_units() + units
            } else {
                Self::units_limit(old(self).frame_rate) - 1
            },
    {
        proof {
            let th = self.h as int;
            let tm = self.m as int;
            let ts = self.s as int;
            let tf = self.f as int;
            let tp = self.frame_progress as int;
            let tr = self.frame_rate as int;
            assert(((th * 3600 + tm * 60 + ts) * tr + tf) * 65536 + tp
                < 65536int * 3600 * 65536 * tr) by (nonlinear_arith)
                requires
                    th < 65536,
                    tm < 60,
                    ts < 60,
                    tf < tr,
                    tp < 65536,
                    0 < tr,
            ;
            lemma_units_limit_bound(self.frame_rate);
        }
        let have: u64 = self.units();
        let lim: u64 = self.units_limit_exec();
        let total: u64 = if units < lim && have + units < lim {
            have + units
        } else {
            lim - 1
        };
        self.set_from_units(total);
    }

    /// Set the time fields directly. Minutes, seconds and frames are
    /// reduced below their moduli so the instant stays normalized; hours
    /// pass through unreduced (values above 24 serve as a sentinel).
    pub fn set_time(&mut self, h: u16, m: u16, s: u16, f: u16)
        requires
            0 < old(self).frame_rate,
        ensures
            final(self).wf(),
            final(self).frame_rate == old(self).frame_rate,
            final(self).h == h,
            final(self).m == m as int % 60,
            final(self).s == s as int % 60,
            final(self).f == f as int % (old(self).frame_rate as int),
            final(self).frame_progress == old(self).frame_progress,
    {
        self.h = h;
        self.m = m % 60;
        self.s = s % 60;
        self.f = f % self.frame_rate;
    }
}

/// The unit-count ceiling grows linearly with the rate and stays within
/// `u64` for any `u16` rate.
proof fn lemma_units_limit_bound(rate: u16)
    ensures
        TimecodeInstant::units_limit(rate) <= 65536int * 3600 * 65536 * 65535,
{
    assert(65536int * 3600 * 65536 * (rate as int) <= 65536int * 3600 * 65536 * 65535)
        by (nonlinear_arith)
        requires
            rate <= 65535,
    ;
}

/// The sum of a run of progress increments.
pub open spec fn sum_of(ps: Seq<u16>) -> int
    decreases ps.len(),
{
    if ps.len() == 0 {
        0int
    } else {
        sum_of(ps.drop_last()) + ps.last()
    }
}

/// Law: a run of `add_progress` calls lands on the initial unit count
/// plus the sum of the increments, and every instant along the way
/// stays normalized. `ts` is the chain of instants, `ps` the increments
/// between them, each step related as `add_progress` ensures.
pub proof fn lemma_progress_run(ts: Seq<TimecodeInstant>, ps: Seq<u16>)
    requires
        ts.len() == ps.len() + 1,
        forall|i: int| 0 <= i < ts.len() ==> (#[trigger] ts[i]).wf(),
        forall|i: int| 0 <= i < ps.len() ==> (#[trigger] ts[i + 1]).total_units()
            == ts[i].total_units() + ps[i],
    ensures
        ts.last().total_units() == ts.first().total_units() + sum_of(ps),
    decreases ps.len(),
{
    if ps.len() == 0 {
    } else {
        lemma_progress_run(ts.drop_last(), ps.drop_last());
        assert(ts.drop_last().last() == ts[ts.len() - 2]);
        assert(ts.last().total_units() == ts[ps.len() - 1 + 1].total_units());
    }
}

} // verus!
