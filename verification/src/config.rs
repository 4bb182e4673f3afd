//! Every number the meter runs on, and why each one is the one it is.
//!
//! The brief was minimum energy, and on a battery meter almost every design decision is an energy
//! decision wearing a different hat. The choices are gathered here so that the trade behind any of
//! them can be found and argued with. In order of what they decide:
//!
//! 1. **How often it measures.** Everything else is a rounding error beside this.
//! 2. **How long the analog front end is powered for each measurement**, which is the capture
//!    length plus the crystal's start-up.
//! 3. **What the machine draws while asleep.**

use vstd::prelude::*;

verus! {

/// MCLK, and with it SMCLK, in hertz: 8 MHz, the minimum-energy point for this part. Above it the
/// FRAM needs wait states; below it the work takes longer while the leakage carries on.
pub const MCLK_HZ: u32 = 8_000_000;

/// Seconds between measurements while water is moving.
///
/// The single largest lever in the whole design. Every doubling of this halves the meter's energy,
/// and the only thing it costs is how quickly a change in flow is noticed.
pub const INTERVAL_FLOWING_S: u64 = 2;

/// Seconds between measurements when nothing has moved for a while.
pub const INTERVAL_IDLE_S: u64 = 30;

/// Consecutive still measurements before the meter slows down.
///
/// Not one: a single zero in the middle of a draw is more likely to be a missed echo than a closed
/// tap.
pub const IDLE_MEASUREMENTS: u8 = 8;

/// Velocity below which the water counts as still, in micrometres per second.
///
/// Not zero: around zero the noise is as likely to read positive as negative, and a meter that
/// integrated everything would accumulate a total from a closed tap.
pub const ZERO_CUTOFF_UM_S: i32 = 4_000;

/// Samples captured per ping. Two hundred samples at 4 Msps is fifty microseconds.
pub const SAMPLES: usize = 200;

/// How many samples after the burst the correlation runs over.
///
/// The correlation is the only part of a measurement where the CPU does real work, and its cost is
/// this times the number of lags.
pub const CORRELATION_SAMPLES: usize = 64;

/// How far the correlation searches, in samples.
pub const MAX_LAG: i16 = 16;

/// Modulator cycles per sample: the front end is configured for an oversampling ratio of twenty,
/// the lowest likely to give usable noise on a 1 MHz burst.
pub const OVERSAMPLING: u32 = 20;

/// Frequency of the front end's high-speed PLL, in hertz, which clocks the modulator.
///
/// The front end's own default, which this meter does not change: two captures of [`SAMPLES`]
/// samples at an oversampling of [`OVERSAMPLING`] take a hundred microseconds at it.
pub const USS_PLL_HZ: u32 = 80_000_000;

/// Measurements between checks of the battery and the temperature. Rare on purpose: both need the
/// internal reference, which has to be switched on and left to settle.
pub const HOUSEKEEPING_EVERY: u16 = 128;

/// How long the display stays up after a press, in seconds.
pub const DISPLAY_SHOW_SECONDS: u32 = 45;

/// Seconds between measurements while somebody is watching the display.
pub const INTERVAL_WATCHED_S: u64 = 1;

/// How many times a day somebody is assumed to press the button. An assumption about people, not
/// about hardware, and only used to price the display in [`crate::energy`].
pub const DISPLAY_VIEWS_PER_DAY: u32 = 4;

/// Seconds between radio frames: one a minute, which at thirty milliamps for four milliseconds a
/// frame is two microamps.
pub const BROADCAST_INTERVAL_S: u64 = 60;

/// Millivolts below which the battery is called low.
pub const BATTERY_LOW_MV: u16 = 3_200;

} // verus!
