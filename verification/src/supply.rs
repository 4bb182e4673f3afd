//! The battery and the temperature — the two things the meter checks about itself.
//!
//! Both are read through the on-chip converter, and rarely: they need the internal reference,
//! which has to be switched on and left to settle, and neither changes on the timescale of a
//! measurement. Nothing external either: the device reads half its own supply internally, drawing
//! nothing between conversions, where a resistive divider would draw microamps for a decade.
//!
//! What is worked out here is what the two conversions mean.

use vstd::prelude::*;
use crate::config::BATTERY_LOW_MV;

verus! {

/// What the meter knows about its own condition.
#[derive(Copy, Clone, Debug, PartialEq, Eq, Structural)]
pub struct Health {
    /// Supply, in millivolts.
    pub supply_mv: u16,
    /// Die temperature, in tenths of a degree Celsius. Uncalibrated — see [`temperature_c10`].
    pub temperature_c10: i16,
    /// Whether the battery has fallen below [`BATTERY_LOW_MV`].
    pub battery_low: bool,
}

/// Nothing known yet.
pub open spec fn unknown() -> Health {
    Health { supply_mv: 0, temperature_c10: 0, battery_low: false }
}

impl Default for Health {
    fn default() -> (r: Self)
        ensures
            r == unknown(),
    {
        Health { supply_mv: 0, temperature_c10: 0, battery_low: false }
    }
}

/// Sensor output at 30 °C, in millivolts: the typical figure for this family.
pub const MV_AT_30C: i32 = 690;
/// How far the output falls per degree, in microvolts.
pub const UV_PER_DEGREE: i32 = 1_700;

/// `a / b` rounded toward zero, for a positive `b`.
pub open spec fn trunc_div(a: int, b: int) -> int {
    if a >= 0 {
        a / b
    } else {
        -((-a) / b)
    }
}

/// Tenths of a degree from the sensor's millivolts, as the `i16` it is kept in: 30.0 °C at
/// [`MV_AT_30C`], and a tenth of a degree less for every 170 µV above it, counted toward zero.
pub open spec fn temperature(millivolts: u16) -> i16 {
    (300 - trunc_div((millivolts - MV_AT_30C) * 1000 * 10, UV_PER_DEGREE as int)) as i16
}

/// Die temperature from the sensor's output voltage, in tenths of a degree.
///
/// **Uncalibrated.** The sensor's slope is consistent, its offset is not — part to part it varies
/// by several degrees — so this is good for a trend and useless as an absolute. Nothing depends on
/// it: the velocity calculation has no temperature term at all.
pub fn temperature_c10(millivolts: u16) -> (r: i16)
    ensures
        r == temperature(millivolts),
{
    let delta_uv: i32 = (millivolts as i32 - MV_AT_30C) * 1000;
    let tenths: i32 = match (delta_uv * 10).checked_div(UV_PER_DEGREE) {
        Some(q) => q,
        None => 0,
    };
    #[verifier::truncate] ((300 - tenths) as i16)
}

/// The supply in millivolts from the half-supply channel's reading: doubled, held at the top.
pub open spec fn supply(half_mv: u16) -> u16 {
    if 2 * half_mv > u16::MAX {
        u16::MAX
    } else {
        (2 * half_mv) as u16
    }
}

/// What two conversions say about the meter: the half-supply channel and the temperature sensor,
/// each in millivolts, or `None` where the converter gave no reading — which counts as zero.
pub open spec fn assessed(half_supply_mv: Option<u16>, sensor_mv: Option<u16>) -> Health {
    let half = match half_supply_mv {
        Some(v) => v,
        None => 0,
    };
    let sensor = match sensor_mv {
        Some(v) => v,
        None => 0,
    };
    Health {
        supply_mv: supply(half),
        temperature_c10: temperature(sensor),
        battery_low: supply(half) < BATTERY_LOW_MV,
    }
}

/// The meter's condition from one reading of each internal channel.
pub fn health(half_supply_mv: Option<u16>, sensor_mv: Option<u16>) -> (r: Health)
    ensures
        r == assessed(half_supply_mv, sensor_mv),
{
    let half: u16 = match half_supply_mv {
        Some(v) => v,
        None => 0,
    };
    // The channel reads half the rail, so the answer doubles.
    let doubled: u32 = half as u32 * 2;
    let supply_mv: u16 = if doubled > u16::MAX as u32 {
        u16::MAX
    } else {
        doubled as u16
    };
    let sensor: u16 = match sensor_mv {
        Some(v) => v,
        None => 0,
    };
    Health {
        supply_mv,
        temperature_c10: temperature_c10(sensor),
        battery_low: supply_mv < BATTERY_LOW_MV,
    }
}

} // verus!
