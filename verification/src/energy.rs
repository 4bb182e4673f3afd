//! What the meter costs to run, worked out from the settings it is running.
//!
//! "Minimum energy" is not a property you can inspect by reading code: comments do not add up.
//! This does. It turns the settings in [`crate::config`] into an estimated average current, so a
//! change to any of them can be checked rather than believed.
//!
//! # These are datasheet typicals, not measurements
//!
//! Treat the answer as a way of comparing two configurations, which it is good at, and not as a
//! battery life, which it is not. Run with the defaults, the shape is not what intuition suggests:
//! the correlation costs more than the ultrasound, because the CPU has no hardware multiply linked
//! and runs thousands of multiply-accumulates per measurement while the front end is on for a
//! hundred microseconds.

use vstd::prelude::*;
use crate::config::{
    BROADCAST_INTERVAL_S, CORRELATION_SAMPLES, DISPLAY_SHOW_SECONDS, DISPLAY_VIEWS_PER_DAY,
    INTERVAL_FLOWING_S, INTERVAL_IDLE_S, INTERVAL_WATCHED_S, MAX_LAG, MCLK_HZ, OVERSAMPLING,
    SAMPLES, USS_PLL_HZ,
};

verus! {

/// LPM3 with the crystal and the RTC running, in nanoamps: the floor no interval gets below.
pub const SLEEP_NA: u32 = 1_500;
/// The CPU and its memory, running, in microamps.
pub const ACTIVE_UA: u32 = 800;
/// The ultrasonic front end while it is measuring, in microamps.
pub const USS_ACTIVE_UA: u32 = 4_000;
/// How long the crystal and PLL take to start, in microseconds: paid on every measurement, and
/// larger than the capture it enables.
pub const STARTUP_US: u32 = 1_000;
/// The OLED module while it is showing text, in microamps — measured on a module, since the
/// controller's own figures are quoted with no panel attached.
pub const DISPLAY_UA: u32 = 630;
/// The CC1101 while transmitting at +10 dBm, in microamps.
pub const RADIO_TX_UA: u32 = 30_000;
/// How long a frame takes, in microseconds, including the synthesiser calibrating and the
/// registers being written.
pub const RADIO_FRAME_US: u32 = 4_000;
/// Cycles per multiply-accumulate in the correlation, with the software multiply linked. An
/// estimate on the optimistic side.
pub const CYCLES_PER_MAC: u32 = 50;
/// Seconds in a day.
pub const DAY_S: u32 = 86_400;

/// A rough division of a measurement's cost.
#[derive(Copy, Clone, Debug, PartialEq, Eq, Structural)]
pub struct Budget {
    /// Charge the front end takes for one measurement, in nanocoulombs.
    pub front_end_nc: u32,
    /// Charge the correlation takes, in nanocoulombs.
    pub correlation_nc: u32,
    /// Average current the meter itself draws over a measurement interval, in nanoamps: sleeping,
    /// and measuring once. The display and the radio are priced separately, below.
    pub average_na: u32,
    /// Microseconds the front end is powered for.
    pub front_end_us: u32,
    /// Microseconds the CPU spends correlating.
    pub correlation_us: u32,
    /// Average current the display costs, in nanoamps, spread over the day.
    pub display_na: u32,
    /// Average current the radio costs, in nanoamps.
    pub radio_na: u32,
}

/// `a / b` rounded up, for a positive `b`.
pub open spec fn ceil_div(a: int, b: int) -> int {
    if a % b == 0 {
        a / b
    } else {
        a / b + 1
    }
}

fn div_ceil(a: u64, b: u64) -> (r: u64)
    requires
        b > 0,
    ensures
        r == ceil_div(a as int, b as int),
{
    let q: u64 = a / b;
    if a % b != 0 {
        proof {
            assert(b > 1);
            vstd::arithmetic::div_mod::lemma_div_is_ordered_by_denominator(a as int, 2, b as int);
        }
        q + 1
    } else {
        q
    }
}

/// Microseconds for two pings of `samples` samples, each sample `oversampling` cycles of a PLL at
/// `pll_hz`, rounded up so that a capture is never counted as free.
pub open spec fn capture_time(pll_hz: u32, oversampling: u32, samples: u32) -> u32 {
    ceil_div(2 * samples * oversampling * 1_000_000, pll_hz as int) as u32
}

/// How long one capture takes, in microseconds.
pub fn capture_us(pll_hz: u32, oversampling: u32, samples: u32) -> (r: u32)
    requires
        pll_hz > 0,
        2 * samples <= u32::MAX,
        2 * samples * oversampling <= u32::MAX,
    ensures
        r == capture_time(pll_hz, oversampling, samples),
{
    // Two pings, each of `samples` samples, each sample taking `oversampling` modulator cycles.
    let cycles: u32 = 2 * samples * oversampling;
    #[verifier::truncate] (div_ceil(cycles as u64 * 1_000_000, pll_hz as u64) as u32)
}

/// Microseconds of correlation: one pass per lag across the search, plus the two either side of
/// the peak for the parabola, each over `window` samples at [`CYCLES_PER_MAC`] cycles of a clock
/// at `mclk_hz`, rounded up.
pub open spec fn correlation_time(window: u32, max_lag: u32, mclk_hz: u32) -> u32 {
    ceil_div((2 * max_lag + 1 + 2) * window * CYCLES_PER_MAC * 1_000_000, mclk_hz as int) as u32
}

/// How long the correlation takes, in microseconds.
pub fn correlation_us(window: u32, max_lag: u32, mclk_hz: u32) -> (r: u32)
    requires
        mclk_hz > 0,
        2 * max_lag + 1 + 2 <= u32::MAX,
        (2 * max_lag + 1 + 2) * window <= u32::MAX,
    ensures
        r == correlation_time(window, max_lag, mclk_hz),
{
    let passes: u32 = 2 * max_lag + 1 + 2;
    proof {
        assert(passes * window <= u32::MAX);
    }
    let macs: u32 = passes * window;
    proof {
        assert(macs as u64 * 50 * 1_000_000 <= 0xffff_ffffu64 * 50 * 1_000_000) by (nonlinear_arith)
            requires
                macs <= 0xffff_ffffu64,
        ;
    }
    #[verifier::truncate] (div_ceil(
        macs as u64 * CYCLES_PER_MAC as u64 * 1_000_000,
        mclk_hz as u64,
    ) as u32)
}

/// What the display costs on average, in nanoamps, when a measurement costs `per_measurement_nc`:
/// the panel for the seconds a day it is shown, and the faster measuring while it is watched.
pub open spec fn display_cost(per_measurement_nc: int) -> int {
    let display_seconds_per_day: int = DISPLAY_SHOW_SECONDS * DISPLAY_VIEWS_PER_DAY;
    let watched_measurements: int = display_seconds_per_day / (INTERVAL_WATCHED_S as int);
    (DISPLAY_UA * display_seconds_per_day * 1000) / (DAY_S as int) + (watched_measurements
        * per_measurement_nc) / (DAY_S as int)
}

/// The budget for the settings in [`crate::config`], measuring every `interval_s` seconds.
///
/// Microamps times microseconds is picocoulombs, a thousand of which is a nanocoulomb. The CPU is
/// running for the whole of the front end's time as well as the correlation. The average is the
/// meter's own draw: what sleeping costs, plus one measurement's charge spread over the interval.
/// The display is priced per day, including the faster measuring while somebody watches it, and
/// the radio has an interval of its own; each stands in a field of its own, beside the average.
pub open spec fn budget_for(interval_s: u32) -> Budget {
    let front_end_us: int = STARTUP_US + capture_time(USS_PLL_HZ, OVERSAMPLING, SAMPLES as u32);
    let correlation_us: int = correlation_time(
        CORRELATION_SAMPLES as u32,
        MAX_LAG as u32,
        MCLK_HZ,
    ) as int;
    let front_end_nc: int = (USS_ACTIVE_UA * front_end_us) / 1_000;
    let correlation_nc: int = (ACTIVE_UA * (correlation_us + front_end_us)) / 1_000;
    let display_na: int = display_cost(front_end_nc + correlation_nc);
    let radio_nc: int = (RADIO_TX_UA as int / 1000) * RADIO_FRAME_US;
    let radio_na: int = radio_nc / (BROADCAST_INTERVAL_S as int);
    let per_measurement_nc: int = front_end_nc + correlation_nc;
    Budget {
        front_end_nc: front_end_nc as u32,
        correlation_nc: correlation_nc as u32,
        average_na: (SLEEP_NA + per_measurement_nc / (interval_s as int)) as u32,
        front_end_us: front_end_us as u32,
        correlation_us: correlation_us as u32,
        display_na: display_na as u32,
        radio_na: radio_na as u32,
    }
}

/// Work the budget out for the settings in [`crate::config`].
///
/// `interval_s` is which of the two measurement intervals to price — the meter uses both, so the
/// honest answer is a pair of numbers rather than one.
pub fn budget(interval_s: u32) -> (r: Budget)
    requires
        interval_s > 0,
    ensures
        r == budget_for(interval_s),
{
    proof {
        lemma_constant_costs();
    }
    let front_end_us: u32 = STARTUP_US + capture_us(USS_PLL_HZ, OVERSAMPLING, SAMPLES as u32);
    let correlation_us: u32 = correlation_us(
        CORRELATION_SAMPLES as u32,
        MAX_LAG as u32,
        MCLK_HZ,
    );

    let front_end_nc: u32 = (USS_ACTIVE_UA * front_end_us) / 1_000;
    let correlation_nc: u32 = (ACTIVE_UA * (correlation_us + front_end_us)) / 1_000;

    let display_seconds_per_day: u32 = DISPLAY_SHOW_SECONDS * DISPLAY_VIEWS_PER_DAY;
    let watched_measurements: u32 = display_seconds_per_day / INTERVAL_WATCHED_S as u32;
    let display_na: u32 = (DISPLAY_UA * display_seconds_per_day * 1000) / DAY_S + (
    watched_measurements * (front_end_nc + correlation_nc)) / DAY_S;

    let radio_nc: u32 = (RADIO_TX_UA / 1000) * RADIO_FRAME_US;
    let radio_na: u32 = radio_nc / BROADCAST_INTERVAL_S as u32;

    let per_measurement_nc: u32 = front_end_nc + correlation_nc;
    let average_na: u32 = SLEEP_NA + per_measurement_nc / interval_s;

    Budget {
        front_end_nc,
        correlation_nc,
        average_na,
        front_end_us,
        correlation_us,
        display_na,
        radio_na,
    }
}

/// The budget while water is moving.
pub fn flowing() -> (r: Budget)
    ensures
        r == budget_for(INTERVAL_FLOWING_S as u32),
{
    budget(INTERVAL_FLOWING_S as u32)
}

/// The budget while nothing is moving, which is what a domestic meter does almost all the time.
pub fn idle() -> (r: Budget)
    ensures
        r == budget_for(INTERVAL_IDLE_S as u32),
{
    budget(INTERVAL_IDLE_S as u32)
}

/// Hours in a year.
pub const HOURS_PER_YEAR: u64 = 8766;

/// Years a cell of `capacity_mah` lasts at `average_na`, as the `u32` it is reported in.
pub open spec fn lifetime(capacity_mah: u32, average_na: u32) -> u32 {
    if average_na == 0 {
        0
    } else {
        ((capacity_mah * 1_000_000) / (average_na * HOURS_PER_YEAR)) as u32
    }
}

/// Years a cell of `capacity_mah` would last at `average_na`, ignoring self-discharge — so an
/// upper bound, and a generous one.
pub fn years(capacity_mah: u32, average_na: u32) -> (r: u32)
    ensures
        r == lifetime(capacity_mah, average_na),
{
    if average_na == 0 {
        return 0;
    }
    // mAh to nAh is a factor of a million; hours to years is 8766.
    #[verifier::truncate] (((capacity_mah as u64 * 1_000_000) / (average_na as u64 * HOURS_PER_YEAR)) as u32)
}

/// Measuring less often never costs more: the longer interval's average current is at most the
/// shorter one's.
pub proof fn lemma_longer_interval_costs_no_more(shorter: u32, longer: u32)
    requires
        0 < shorter <= longer,
    ensures
        budget_for(longer).average_na <= budget_for(shorter).average_na,
{
    lemma_constant_costs();
    vstd::arithmetic::div_mod::lemma_div_is_ordered_by_denominator(16_480int, shorter as int, longer as int);
    vstd::arithmetic::div_mod::lemma_div_is_ordered_by_denominator(16_480int, 1, shorter as int);
}

/// Doubling the interval halves what measuring costs: the part of the average current above what
/// sleeping draws regardless ([`SLEEP_NA`]) halves, rounded down, with every doubling.
pub proof fn lemma_doubling_interval_halves_measuring(interval_s: u32)
    requires
        0 < interval_s,
        2 * interval_s <= u32::MAX,
    ensures
        budget_for(interval_s).average_na >= SLEEP_NA,
        budget_for((2 * interval_s) as u32).average_na - SLEEP_NA == (budget_for(interval_s).average_na
            - SLEEP_NA) / 2,
{
    lemma_constant_costs();
    let doubled = (2 * interval_s) as u32;
    assert(budget_for(doubled).average_na == 1_500 + 16_480int / (doubled as int));
    vstd::arithmetic::div_mod::lemma_div_denominator(16_480, interval_s as int, 2);
}

/// What the settings come to: a front end powered for 1 100 µs and 4 400 nC, a correlation of
/// 14 000 µs and 12 080 nC, the display 1 346 nA over a day and the radio 2 000 nA. The meter's own
/// average is what sleeping draws plus 16 480 nC spread over the interval: 9 740 nA every two
/// seconds, 2 049 nA every thirty.
pub proof fn lemma_constant_costs()
    ensures
        capture_time(USS_PLL_HZ, OVERSAMPLING, SAMPLES as u32) == 100,
        correlation_time(CORRELATION_SAMPLES as u32, MAX_LAG as u32, MCLK_HZ) == 14_000,
        forall|i: u32| #![trigger budget_for(i)] i > 0 ==> {
            let b = budget_for(i);
            &&& b.front_end_us == 1_100
            &&& b.front_end_nc == 4_400
            &&& b.correlation_us == 14_000
            &&& b.correlation_nc == 12_080
            &&& b.display_na == 1_346
            &&& b.radio_na == 2_000
            &&& b.average_na == 1_500 + 16_480int / (i as int)
        },
{
    assert(capture_time(USS_PLL_HZ, OVERSAMPLING, SAMPLES as u32) == 100);
    assert(correlation_time(CORRELATION_SAMPLES as u32, MAX_LAG as u32, MCLK_HZ) == 14_000);
    assert forall|i: u32| #![trigger budget_for(i)] i > 0 implies {
        let b = budget_for(i);
        &&& b.front_end_us == 1_100
        &&& b.front_end_nc == 4_400
        &&& b.correlation_us == 14_000
        &&& b.correlation_nc == 12_080
        &&& b.display_na == 1_346
        &&& b.radio_na == 2_000
        &&& b.average_na == 1_500 + 16_480int / (i as int)
    } by {
        vstd::arithmetic::div_mod::lemma_div_is_ordered_by_denominator(16_480int, 1, i as int);
        let b = budget_for(i);
        assert(b.front_end_us == 1_100);
        assert(b.front_end_nc == 4_400);
        assert(b.correlation_us == 14_000);
        assert(b.correlation_nc == 12_080);
        assert(display_cost(16_480) == 1_346);
        assert(b.display_na == 1_346);
        assert(b.radio_na == 2_000);
    }
}

/// A bigger draw never lasts longer, and a bigger cell never shorter — wherever the answer fits
/// the `u32` it is reported in.
pub proof fn lemma_lifetime_ordered(capacity_mah: u32, more_capacity_mah: u32, average_na: u32, higher_na: u32)
    requires
        capacity_mah <= more_capacity_mah,
        0 < average_na <= higher_na,
        (more_capacity_mah * 1_000_000) / (average_na * HOURS_PER_YEAR) <= u32::MAX,
    ensures
        lifetime(capacity_mah, higher_na) <= lifetime(capacity_mah, average_na),
        lifetime(capacity_mah, average_na) <= lifetime(more_capacity_mah, average_na),
{
    let a = capacity_mah * 1_000_000;
    let b = more_capacity_mah * 1_000_000;
    let d = average_na * HOURS_PER_YEAR;
    let e = higher_na * HOURS_PER_YEAR;
    vstd::arithmetic::div_mod::lemma_div_is_ordered(a, b, d);
    vstd::arithmetic::div_mod::lemma_div_is_ordered_by_denominator(a, d, e);
}

} // verus!
