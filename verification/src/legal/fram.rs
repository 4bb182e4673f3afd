//! Where the instrument's own data sits in FRAM.
//!
//! One place, because two modules each choosing an address is how blocks come to overlap. The
//! slots interleave — totals, parameters, totals shadow, parameters shadow — so that a write that
//! runs away from its slot damages the other block rather than its own backup. Each block is
//! written as a pair, one copy after the other, in the order its own module gives.

use vstd::prelude::*;

verus! {

/// The region the linker reserves. Nothing else may be placed here.
pub const BASE: u16 = 0x6000;
/// Its length.
pub const LEN: u16 = 0x0100;
/// Every block gets the same slot, which is what makes the arithmetic simple enough to trust.
pub const SLOT: u16 = 0x40;

/// The meter reading.
pub const TOTALS: u16 = BASE;
/// The per-instrument calibration.
pub const PARAMS: u16 = BASE + SLOT;
/// Second copy of the reading.
pub const TOTALS_SHADOW: u16 = BASE + 2 * SLOT;
/// Second copy of the calibration.
pub const PARAMS_SHADOW: u16 = BASE + 3 * SLOT;

/// One of the two copies of a block.
#[derive(Copy, Clone, Debug, PartialEq, Eq, Structural)]
pub enum Slot {
    /// The copy that is read first, and believed if it is intact.
    Primary,
    /// The copy fallen back on.
    Shadow,
}

/// Where the reading's copy `slot` is.
pub fn totals_address(slot: Slot) -> (r: u16)
    ensures
        r == (if slot is Primary { TOTALS } else { TOTALS_SHADOW }),
{
    match slot {
        Slot::Primary => TOTALS,
        Slot::Shadow => TOTALS_SHADOW,
    }
}

/// Where the calibration's copy `slot` is.
pub fn params_address(slot: Slot) -> (r: u16)
    ensures
        r == (if slot is Primary { PARAMS } else { PARAMS_SHADOW }),
{
    match slot {
        Slot::Primary => PARAMS,
        Slot::Shadow => PARAMS_SHADOW,
    }
}

/// The pair `(primary, shadow)` with `slot` holding `value`.
pub open spec fn put<T>(pair: (T, T), slot: Slot, value: T) -> (T, T) {
    match slot {
        Slot::Primary => (value, pair.1),
        Slot::Shadow => (pair.0, value),
    }
}

/// What the pair `(primary, shadow)` holds after `next` is written to the slots of `order` one
/// after the other, with the power lost during write number `step`, counted from zero, leaving
/// `torn` in the slot then being written. A `step` past the last write is one that completed.
pub open spec fn cut_write<T>(primary: T, shadow: T, next: T, order: Seq<Slot>, step: int, torn: T) -> (
    T,
    T,
) {
    let first = put((primary, shadow), order[0], if step == 0 { torn } else { next });
    if step == 0 {
        first
    } else {
        put(first, order[1], if step == 1 { torn } else { next })
    }
}

/// The four slots fit the region, start where they are said to, and do not overlap: each begins
/// at or after the end of the one before, and the last ends inside the region.
pub proof fn lemma_slots_fit_region()
    ensures
        4 * SLOT <= LEN,
        TOTALS == BASE,
        TOTALS + SLOT <= PARAMS,
        PARAMS + SLOT <= TOTALS_SHADOW,
        TOTALS_SHADOW + SLOT <= PARAMS_SHADOW,
        PARAMS_SHADOW + SLOT <= BASE + LEN,
{
}

} // verus!
