//! The meter's reading, kept in FRAM.
//!
//! On FRAM a write is a write: byte-addressable, in place, no erase. So the reading is a plain
//! struct at a fixed address, updated by assigning to it. What is still needed is a checksum,
//! because a write interrupted by the battery being pulled leaves half a value, and a shadow copy
//! so there is something to fall back to: the two are written one after the other — the primary
//! first — so a power cut can spoil at most one of them, and costs at most the newer reading.

use vstd::prelude::*;
use crate::crc::{crc16, feed, le_bytes, lemma_crc16_append, CCITT_POLY};
use super::fram::{cut_write, Slot};

verus! {

/// Layout version, so a later firmware can tell it is looking at an older shape.
pub const VERSION: u16 = 1;

/// A litre, in microlitres.
pub const UL_PER_LITRE: u32 = 1_000_000;

/// What the meter has counted.
#[derive(Copy, Clone, Debug, PartialEq, Eq, Structural)]
pub struct Totals {
    /// Layout version.
    pub version: u16,
    /// Whole litres delivered.
    pub litres: u32,
    /// Microlitres on top of that, always under a million.
    ///
    /// Kept separately so that the small volumes a single measurement contributes are not lost to
    /// rounding.
    pub microlitres: u32,
    /// Litres that went backwards, counted separately rather than subtracted: reverse flow through
    /// a domestic meter means a fault or a theft, and subtracting would hide it.
    pub reverse_litres: u32,
    /// How many measurements have been made.
    pub measurements: u32,
    /// Measurements where no echo was found: the earliest sign of air in the pipe or a failing
    /// transducer.
    pub missed: u32,
    /// Checksum over everything above.
    pub crc: u16,
}

/// The fields the checksum covers, as they are fed to it: each little-endian, in declaration
/// order, the checksum itself excluded.
pub open spec fn record_bytes(t: Totals) -> Seq<u8> {
    le_bytes(t.version as u32, 2) + le_bytes(t.litres, 4) + le_bytes(t.microlitres, 4)
        + le_bytes(t.reverse_litres, 4) + le_bytes(t.measurements, 4) + le_bytes(t.missed, 4)
}

/// CRC-16/CCITT over [`record_bytes`].
pub open spec fn expected_crc(t: Totals) -> u16 {
    crc16(CCITT_POLY, 0xffff, record_bytes(t))
}

/// Whether a stored copy can be believed: the current layout, and a checksum that matches.
pub open spec fn is_valid(t: Totals) -> bool {
    t.version == VERSION && t.crc == expected_crc(t)
}

/// What a meter that has never counted holds.
pub open spec fn zero() -> Totals {
    Totals {
        version: VERSION,
        litres: 0,
        microlitres: 0,
        reverse_litres: 0,
        measurements: 0,
        missed: 0,
        crc: 0,
    }
}

/// The reading recovered from the two stored copies: the primary if it is intact, the shadow if
/// it is not, a fresh zero if neither is.
pub open spec fn recovered(primary: Totals, shadow: Totals) -> Totals {
    if is_valid(primary) {
        primary
    } else if is_valid(shadow) {
        shadow
    } else {
        zero()
    }
}

/// `a + b`, held at the top of a `u32`.
pub open spec fn saturated(a: int, b: int) -> u32 {
    if a + b > u32::MAX {
        u32::MAX
    } else {
        (a + b) as u32
    }
}

/// `t` with `microlitres` added, carried into litres, the litres held at the top.
pub open spec fn added_forward(t: Totals, microlitres: u32) -> Totals {
    Totals {
        microlitres: ((t.microlitres + microlitres) % (UL_PER_LITRE as int)) as u32,
        litres: saturated(t.litres as int, (t.microlitres + microlitres) / (UL_PER_LITRE as int)),
        ..t
    }
}

/// `t` with the whole litres in `microlitres` counted as reverse flow, held at the top.
pub open spec fn added_reverse(t: Totals, microlitres: u32) -> Totals {
    Totals {
        reverse_litres: saturated(t.reverse_litres as int, (microlitres / UL_PER_LITRE) as int),
        ..t
    }
}

/// `t` with the checksum stamped over it, as [`store`] leaves it.
pub open spec fn stamped(t: Totals) -> Totals {
    Totals { crc: expected_crc(t), ..t }
}

impl Default for Totals {
    fn default() -> (r: Self)
        ensures
            r == zero(),
    {
        Totals {
            version: VERSION,
            litres: 0,
            microlitres: 0,
            reverse_litres: 0,
            measurements: 0,
            missed: 0,
            crc: 0,
        }
    }
}

impl Totals {
    /// Add `microlitres` to the reading, carrying into litres.
    ///
    /// The litres saturate rather than wrap: a meter that has counted past its register reads as
    /// stuck at the top, not as new.
    pub fn add_forward(&mut self, microlitres: u32)
        requires
            old(self).microlitres + microlitres <= u32::MAX,
        ensures
            *final(self) == added_forward(*old(self), microlitres),
            final(self).microlitres < UL_PER_LITRE,
            // Nothing is lost to rounding: short of the litres saturating, the volume held goes up
            // by exactly what was added.
            final(self).litres < u32::MAX ==> final(self).litres * (UL_PER_LITRE as int)
                + final(self).microlitres == old(self).litres * (UL_PER_LITRE as int)
                + old(self).microlitres + microlitres,
    {
        let ghost sum: int = old(self).microlitres + microlitres;
        let ghost litres0: int = old(self).litres as int;
        self.microlitres = self.microlitres + microlitres;
        let ghost mut carried: int = 0;
        while self.microlitres >= UL_PER_LITRE
            invariant
                self.microlitres + carried * 1_000_000 == sum,
                carried >= 0,
                0 <= litres0 <= u32::MAX,
                self.litres == saturated(litres0, carried),
                self.version == old(self).version,
                self.reverse_litres == old(self).reverse_litres,
                self.measurements == old(self).measurements,
                self.missed == old(self).missed,
                self.crc == old(self).crc,
            decreases self.microlitres,
        {
            self.microlitres = self.microlitres - UL_PER_LITRE;
            self.litres = self.litres.saturating_add(1);
            proof {
                carried = carried + 1;
            }
        }
        proof {
            vstd::arithmetic::div_mod::lemma_fundamental_div_mod_converse(
                sum,
                1_000_000,
                carried,
                self.microlitres as int,
            );
        }
    }

    /// Count water that went the wrong way: whole litres only, because the interesting question
    /// about reverse flow is whether it is happening at all.
    pub fn add_reverse(&mut self, microlitres: u32)
        ensures
            *final(self) == added_reverse(*old(self), microlitres),
    {
        self.reverse_litres = self.reverse_litres.saturating_add(microlitres / UL_PER_LITRE);
    }

    /// CRC-16/CCITT over the fields, excluding the checksum itself.
    pub fn checksum(&self) -> (r: u16)
        ensures
            r == expected_crc(*self),
    {
        let mut crc: u16 = 0xffff;
        crc = feed(crc, self.version as u32, 2);
        crc = feed(crc, self.litres, 4);
        crc = feed(crc, self.microlitres, 4);
        crc = feed(crc, self.reverse_litres, 4);
        crc = feed(crc, self.measurements, 4);
        crc = feed(crc, self.missed, 4);
        proof {
            let a = le_bytes(self.version as u32, 2);
            let b = le_bytes(self.litres, 4);
            let c = le_bytes(self.microlitres, 4);
            let d = le_bytes(self.reverse_litres, 4);
            let e = le_bytes(self.measurements, 4);
            let f = le_bytes(self.missed, 4);
            lemma_crc16_append(CCITT_POLY, 0xffff, a, b);
            lemma_crc16_append(CCITT_POLY, 0xffff, a + b, c);
            lemma_crc16_append(CCITT_POLY, 0xffff, a + b + c, d);
            lemma_crc16_append(CCITT_POLY, 0xffff, a + b + c + d, e);
            lemma_crc16_append(CCITT_POLY, 0xffff, a + b + c + d + e, f);
        }
        crc
    }
}

/// Whether a stored copy can be believed.
pub fn valid(t: &Totals) -> (r: bool)
    ensures
        r == is_valid(*t),
{
    t.version == VERSION && t.crc == t.checksum()
}

/// The reading, from the two copies as they were read back out of FRAM.
///
/// Takes the primary if it is intact, the shadow if it is not, and a fresh zero if neither is —
/// which is what a meter that has never been switched on looks like, and is indistinguishable from
/// one whose FRAM has been wiped. Both want the same thing: start counting.
pub fn load(primary: &Totals, shadow: &Totals) -> (r: Totals)
    ensures
        r == recovered(*primary, *shadow),
{
    if valid(primary) {
        return *primary;
    }
    if valid(shadow) {
        return *shadow;
    }
    Totals::default()
}

/// Make the reading ready to be written down: stamp the checksum over it.
///
/// What goes to FRAM is the result, written to both copies in [`write_order`]: the primary first,
/// then the shadow. [`load`] prefers the primary, so a power cut during the primary's write leaves
/// the shadow holding the previous good value, and one during the shadow's leaves the primary
/// holding the new.
pub fn store(totals: &mut Totals)
    ensures
        *final(totals) == stamped(*old(totals)),
        old(totals).version == VERSION ==> is_valid(*final(totals)),
{
    totals.crc = totals.checksum();
    proof {
        assert(record_bytes(*totals) =~= record_bytes(*old(totals)));
    }
}

/// The order the two copies of the reading are written in.
pub open spec fn write_sequence() -> Seq<Slot> {
    seq![Slot::Primary, Slot::Shadow]
}

/// The order to write the two copies of a stamped reading in: the primary, then the shadow.
pub fn write_order() -> (r: [Slot; 2])
    ensures
        r@ == write_sequence(),
{
    let r: [Slot; 2] = [Slot::Primary, Slot::Shadow];
    assert(r@ =~= write_sequence());
    r
}

/// What a read gives back of a write: a reading stamped by [`store`] and written to both copies
/// is recovered exactly, and so is one written to the primary whatever the shadow holds.
pub proof fn lemma_load_returns_stored(stamped: Totals, other: Totals)
    requires
        is_valid(stamped),
    ensures
        recovered(stamped, stamped) == stamped,
        recovered(stamped, other) == stamped,
{
}

/// A battery pulled in the middle of writing the pair costs at most the newer reading.
///
/// With `previous` intact in both copies and `next` written in [`write_sequence`]: a write torn
/// during the primary's write leaves the shadow holding `previous`, which is what comes back —
/// provided the torn primary does not happen to pass its own checksum; one torn during the
/// shadow's write leaves `next` in the primary, which comes back; and a completed one gives
/// `next`.
pub proof fn lemma_torn_write_costs_at_most_newer(previous: Totals, next: Totals, torn: Totals, step: int)
    requires
        is_valid(previous),
        is_valid(next),
        0 <= step <= 2,
        step == 0 ==> !is_valid(torn),
    ensures
        ({
            let (primary, shadow) = cut_write(previous, previous, next, write_sequence(), step, torn);
            recovered(primary, shadow) == if step == 0 { previous } else { next }
        }),
{
}

} // verus!
