//! Frequency and duration units, and the number of clock cycles that spans a
//! duration.

use vstd::prelude::*;

verus! {

/// Picoseconds in one second.
pub const PS_PER_SECOND: u64 = 1_000_000_000_000;

/// Nanoseconds in one second.
pub const NS_PER_SECOND: u32 = 1_000_000_000;

/// Milliseconds in one second.
pub const MS_PER_SECOND: u32 = 1_000;

/// The remainder, in picoseconds, below which a duration counts as covered
/// by the whole cycles that fit into it: one nanosecond.
pub const CYCLE_TOLERANCE_PS: u32 = 1_000;

/// Bits per second
#[derive(Clone, Copy, Debug, PartialEq, Eq, Structural)]
pub struct Bps(pub u32);

/// Hertz
#[derive(Clone, Copy, Debug, PartialEq, Eq, Structural)]
pub struct Hertz(pub u32);

/// KiloHertz
#[derive(Clone, Copy, Debug, PartialEq, Eq, Structural)]
pub struct KiloHertz(pub u32);

/// MegaHertz
#[derive(Clone, Copy, Debug, PartialEq, Eq, Structural)]
pub struct MegaHertz(pub u32);

/// MilliSeconds
#[derive(Clone, Copy, Debug, PartialEq, Eq, PartialOrd, Structural)]
pub struct MilliSeconds(pub u32);

/// MicroSeconds
#[derive(Clone, Copy, Debug, PartialEq, Eq, PartialOrd, Structural)]
pub struct MicroSeconds(pub u32);

/// NanoSeconds
#[derive(Clone, Copy, Debug, PartialEq, Eq, PartialOrd, Structural)]
pub struct NanoSeconds(pub u32);

/// PicoSeconds
#[derive(Clone, Copy, Debug, PartialEq, Eq, PartialOrd, Structural)]
pub struct PicoSeconds(pub u32);

/// Extension trait that adds convenience methods to the `u32` type
pub trait U32Ext {
    /// Wrap in `Bps`
    fn bps(self) -> Bps;

    /// Wrap in `Hertz`
    fn hz(self) -> Hertz;

    /// Wrap in `KiloHertz`
    fn khz(self) -> KiloHertz;

    /// Wrap in `MegaHertz`
    fn mhz(self) -> MegaHertz;

    /// Wrap in `MilliSeconds`
    fn ms(self) -> MilliSeconds;

    /// Wrap in `MicroSeconds`
    fn us(self) -> MicroSeconds;

    /// Wrap in `NanoSeconds`
    fn ns(self) -> NanoSeconds;

    /// Wrap in `PicoSeconds`
    fn ps(self) -> PicoSeconds;
}

impl U32Ext for u32 {
    fn bps(self) -> (r: Bps)
        ensures
            r.0 == self,
    {
        Bps(self)
    }

    fn hz(self) -> (r: Hertz)
        ensures
            r.0 == self,
    {
        Hertz(self)
    }

    fn khz(self) -> (r: KiloHertz)
        ensures
            r.0 == self,
    {
        KiloHertz(self)
    }

    fn mhz(self) -> (r: MegaHertz)
        ensures
            r.0 == self,
    {
        MegaHertz(self)
    }

    fn ms(self) -> (r: MilliSeconds)
        ensures
            r.0 == self,
    {
        MilliSeconds(self)
    }

    fn us(self) -> (r: MicroSeconds)
        ensures
            r.0 == self,
    {
        MicroSeconds(self)
    }

    fn ns(self) -> (r: NanoSeconds)
        ensures
            r.0 == self,
    {
        NanoSeconds(self)
    }

    fn ps(self) -> (r: PicoSeconds)
        ensures
            r.0 == self,
    {
        PicoSeconds(self)
    }
}

/// The whole number of times that `count` fits into `unit`. Where `unit` is
/// the number of period units in one second, this is the period of the
/// frequency `count`, and just as well the frequency of the period `count`.
pub open spec fn reciprocal(unit: int, count: int) -> int
    recommends
        count > 0,
{
    unit / count
}

/// The number of clock cycles of length `period` needed to span `target`.
///
/// A period longer than the target still takes one cycle. Otherwise it is
/// the number of whole periods in the target, plus one more unless what the
/// whole periods leave uncovered is less than the tolerance.
pub open spec fn cycle_count(period: int, target: int) -> int
    recommends
        period > 0,
        target >= 0,
{
    if period > target {
        1
    } else if target % period < CYCLE_TOLERANCE_PS as int {
        target / period
    } else {
        target / period + 1
    }
}

/// The number of cycles of the clock `clk` that span `delay`, where the
/// period of the clock can be told in picoseconds.
pub open spec fn delay_cycles(clk: Hertz, delay: PicoSeconds) -> Option<int> {
    if clk.has_period_ps() {
        Some(cycle_count(reciprocal(PS_PER_SECOND as int, clk.0 as int), delay.0 as int))
    } else {
        None
    }
}

impl KiloHertz {
    /// The same frequency in hertz. The result has to fit the unit's range.
    pub fn to_hertz(self) -> (r: Hertz)
        requires
            self.0 * 1_000 <= u32::MAX,
        ensures
            r.0 == self.0 * 1_000,
    {
        Hertz(self.0 * 1_000)
    }
}

impl MegaHertz {
    /// The same frequency in hertz. The result has to fit the unit's range.
    pub fn to_hertz(self) -> (r: Hertz)
        requires
            self.0 * 1_000_000 <= u32::MAX,
        ensures
            r.0 == self.0 * 1_000_000,
    {
        Hertz(self.0 * 1_000_000)
    }

    /// The same frequency in kilohertz. The result has to fit the unit's
    /// range.
    pub fn to_kilohertz(self) -> (r: KiloHertz)
        requires
            self.0 * 1_000 <= u32::MAX,
        ensures
            r.0 == self.0 * 1_000,
    {
        KiloHertz(self.0 * 1_000)
    }
}

impl Hertz {
    /// The period in whole milliseconds. The frequency must be nonzero and
    /// at most one cycle per millisecond.
    pub fn period_ms(self) -> (r: MilliSeconds)
        requires
            self.0 != 0,
            self.0 <= MS_PER_SECOND,
        ensures
            r.0 == reciprocal(MS_PER_SECOND as int, self.0 as int),
            r.0 >= 1,
    {
        proof {
            lemma_quotient_bounds(self.0 as int, MS_PER_SECOND as int);
        }
        MilliSeconds(MS_PER_SECOND / self.0)
    }

    /// The period in whole nanoseconds. The frequency must be nonzero and
    /// at most one cycle per nanosecond.
    pub fn period_ns(self) -> (r: NanoSeconds)
        requires
            self.0 != 0,
            self.0 <= NS_PER_SECOND,
        ensures
            r.0 == reciprocal(NS_PER_SECOND as int, self.0 as int),
            r.0 >= 1,
    {
        proof {
            lemma_quotient_bounds(self.0 as int, NS_PER_SECOND as int);
        }
        NanoSeconds(NS_PER_SECOND / self.0)
    }

    /// Whether the period in whole picoseconds fits the unit's range.
    pub open spec fn has_period_ps(self) -> bool {
        self.0 != 0 && reciprocal(PS_PER_SECOND as int, self.0 as int) <= u32::MAX
    }

    /// The period in whole picoseconds. The frequency must be nonzero, and
    /// high enough for the period to fit the unit's range.
    pub fn period_ps(self) -> (r: PicoSeconds)
        requires
            self.has_period_ps(),
        ensures
            r.0 == reciprocal(PS_PER_SECOND as int, self.0 as int),
    {
        let period: u64 = PS_PER_SECOND / (self.0 as u64);
        PicoSeconds(period as u32)
    }

    /// The period in whole picoseconds, or `None` where `period_ps` is not
    /// defined.
    pub fn checked_period_ps(self) -> (r: Option<PicoSeconds>)
        ensures
            match r {
                Some(period) => self.has_period_ps() && period.0 == reciprocal(
                    PS_PER_SECOND as int,
                    self.0 as int,
                ),
                None => !self.has_period_ps(),
            },
    {
        if self.0 == 0 {
            return None;
        }
        let period: u64 = PS_PER_SECOND / (self.0 as u64);
        if period > u32::MAX as u64 {
            None
        } else {
            Some(PicoSeconds(period as u32))
        }
    }
}

impl MilliSeconds {
    /// The frequency in whole hertz. The period must be nonzero and at most
    /// one second.
    pub fn frequency(self) -> (r: Hertz)
        requires
            self.0 != 0,
            self.0 <= MS_PER_SECOND,
        ensures
            r.0 == reciprocal(MS_PER_SECOND as int, self.0 as int),
            r.0 >= 1,
    {
        proof {
            lemma_quotient_bounds(self.0 as int, MS_PER_SECOND as int);
        }
        Hertz(MS_PER_SECOND / self.0)
    }
}

impl MicroSeconds {
    /// The same duration in picoseconds. The result has to fit the unit's
    /// range.
    pub fn to_picos(self) -> (r: PicoSeconds)
        requires
            self.0 * 1_000_000 <= u32::MAX,
        ensures
            r.0 == self.0 * 1_000_000,
    {
        PicoSeconds(self.0 * 1_000_000)
    }
}

impl NanoSeconds {
    /// The frequency in whole hertz. The period must be nonzero and at most
    /// one second.
    pub fn frequency(self) -> (r: Hertz)
        requires
            self.0 != 0,
            self.0 <= NS_PER_SECOND,
        ensures
            r.0 == reciprocal(NS_PER_SECOND as int, self.0 as int),
            r.0 >= 1,
    {
        proof {
            lemma_quotient_bounds(self.0 as int, NS_PER_SECOND as int);
        }
        Hertz(NS_PER_SECOND / self.0)
    }

    /// The same duration in picoseconds. The result has to fit the unit's
    /// range.
    pub fn to_picos(self) -> (r: PicoSeconds)
        requires
            self.0 * 1_000 <= u32::MAX,
        ensures
            r.0 == self.0 * 1_000,
    {
        PicoSeconds(self.0 * 1_000)
    }
}

impl PicoSeconds {
    /// Whether the frequency in whole hertz fits the unit's range.
    pub open spec fn has_frequency(self) -> bool {
        self.0 != 0 && reciprocal(PS_PER_SECOND as int, self.0 as int) <= u32::MAX
    }

    /// The frequency in whole hertz. The period must be nonzero, and long
    /// enough for the frequency to fit the unit's range.
    pub fn frequency(self) -> (r: Hertz)
        requires
            self.has_frequency(),
        ensures
            r.0 == reciprocal(PS_PER_SECOND as int, self.0 as int),
    {
        let freq: u64 = PS_PER_SECOND / (self.0 as u64);
        Hertz(freq as u32)
    }

    /// The number of clock cycles of this length needed to span `time`.
    pub fn cycles(self, time: PicoSeconds) -> (n: u32)
        requires
            self.0 > 0,
        ensures
            n == cycle_count(self.0 as int, time.0 as int),
            n >= 1,
    {
        let period: u32 = self.0;
        let target: u32 = time.0;
        // a target shorter than the period still takes one cycle
        if period > target {
            return 1;
        }
        let x: u32 = target / period;
        let error_x: u32 = target % period;
        proof {
            lemma_quotient_bounds(period as int, target as int);
        }
        // what the whole cycles leave uncovered is tolerated below one nanosecond
        if error_x < CYCLE_TOLERANCE_PS {
            x
        } else {
            x + 1
        }
    }
}

/// The number of cycles of the clock `clk` that span `delay`; `None` where
/// the period of the clock cannot be told in picoseconds.
pub fn cycles_of(clk: Hertz, delay: PicoSeconds) -> (cycles: Option<u32>)
    ensures
        match cycles {
            Some(n) => delay_cycles(clk, delay) == Some(n as int) && n >= 1,
            None => delay_cycles(clk, delay) is None,
        },
{
    match clk.checked_period_ps() {
        Some(cycles_duration) => {
            proof {
                lemma_period_positive(clk.0 as int);
            }
            Some(cycles_duration.cycles(delay))
        },
        None => None,
    }
}

/// For `0 < p <= t`: the quotient `t / p` is at least one, and where the
/// remainder is nonzero the quotient is less than `t`.
proof fn lemma_quotient_bounds(p: int, t: int)
    requires
        0 < p <= t,
    ensures
        1 <= t / p <= t,
        t % p != 0 ==> t / p < t,
        0 <= t % p < p,
{
    vstd::arithmetic::div_mod::lemma_fundamental_div_mod(t, p);
    vstd::arithmetic::div_mod::lemma_mod_bound(t, p);
    let q = t / p;
    assert(q >= 1) by (nonlinear_arith)
        requires
            t == p * q + t % p,
            0 <= t % p < p,
            0 < p <= t,
    ;
    assert(q <= t && (t % p != 0 ==> q < t)) by (nonlinear_arith)
        requires
            t == p * q + t % p,
            0 <= t % p < p,
            0 < p <= t,
            q >= 1,
    ;
}

/// A duration never takes less than one cycle.
pub proof fn lemma_cycle_count_positive(period: int, target: int)
    requires
        period > 0,
        target >= 0,
    ensures
        cycle_count(period, target) >= 1,
{
    if period <= target {
        lemma_quotient_bounds(period, target);
    }
}

/// With the period fixed, a longer duration never takes fewer cycles.
pub proof fn lemma_cycle_count_monotonic(period: int, shorter: int, longer: int)
    requires
        period > 0,
        0 <= shorter <= longer,
    ensures
        cycle_count(period, shorter) <= cycle_count(period, longer),
{
    if period > longer {
    } else if period > shorter {
        lemma_quotient_bounds(period, longer);
    } else {
        lemma_quotient_bounds(period, shorter);
        lemma_quotient_bounds(period, longer);
        vstd::arithmetic::div_mod::lemma_fundamental_div_mod(shorter, period);
        vstd::arithmetic::div_mod::lemma_fundamental_div_mod(longer, period);
        vstd::arithmetic::div_mod::lemma_div_is_ordered(shorter, longer, period);
        let q1 = shorter / period;
        let q2 = longer / period;
        if q1 == q2 {
            assert(shorter % period <= longer % period);
        } else {
            assert(q1 + 1 <= q2);
        }
    }
}

/// The period in picoseconds of a frequency that fits 32 bits is at least
/// one.
proof fn lemma_period_positive(hz: int)
    requires
        0 < hz <= u32::MAX,
    ensures
        reciprocal(PS_PER_SECOND as int, hz) >= 1,
{
    vstd::arithmetic::div_mod::lemma_div_is_ordered(hz, PS_PER_SECOND as int, hz);
    vstd::arithmetic::div_mod::lemma_div_by_self(hz);
}

} // verus!
