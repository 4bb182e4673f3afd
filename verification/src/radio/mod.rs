//! Broadcasting the reading over wireless M-Bus.
//!
//! The instrument transmits and never listens: a frame costs about 30 mA for four milliseconds,
//! which spread over a minute is 2 µA, while receiving costs 15.6 mA continuously. What that rules
//! out is a downlink — no remote configuration, no acknowledgement — which for a water meter in a
//! stairwell is the right trade.

pub mod cc1101;
pub mod wmbus;

use vstd::prelude::*;
use crate::legal::totals::Totals;
use wmbus::Reading;

verus! {

/// The reading to put on air for `totals`, numbered `access`; the number then moves on, wrapping,
/// so a receiver can tell a repeat from a fresh reading and see a gap.
pub fn next_reading(access: &mut u8, totals: &Totals, serial: u32, status: u8) -> (r: Reading)
    ensures
        r == (Reading { serial: serial, litres: totals.litres, access: *old(access), status: status }),
        *final(access) == (if *old(access) == u8::MAX { 0u8 } else { (*old(access) + 1) as u8 }),
{
    let reading: Reading = Reading { serial, litres: totals.litres, access: *access, status };
    *access = access.wrapping_add(1);
    reading
}

} // verus!
