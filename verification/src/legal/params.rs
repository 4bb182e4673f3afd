//! The parameters that make one instrument different from another, and the seal over them.
//!
//! Every instrument is different: the acoustic geometry varies with the moulding, the transducers
//! with the batch, and what turns a difference in flight time into litres is settled per meter on
//! a flow rig. So these are stored, not constants.
//!
//! # WELMEC 7.2 P7, parameter protection
//!
//! * **A seal.** Once [`SEALED`] is set the write path refuses further changes, and nothing here
//!   offers a way to clear it.
//! * **A counter that only goes up.** Every accepted write increments [`Params::writes`]: an
//!   instrument whose counter has moved since its certificate was issued has been interfered with.
//! * **A checksum**, which catches the accidental half of the problem — a battery pulled
//!   mid-write — rather than the deliberate half.

use vstd::prelude::*;
use crate::crc::{crc16, feed, le_bytes, lemma_crc16_append, CCITT_POLY};
use super::fram::{cut_write, Slot};

verus! {

/// Layout version, so a later firmware knows what it is looking at.
pub const VERSION: u16 = 1;

/// The value that counts as sealed: neither zero nor all-ones, so that blank or erased FRAM cannot
/// read as a sealed instrument.
pub const SEALED: u16 = 0x5ea1;

/// Everything settled per instrument.
#[derive(Copy, Clone, Debug, PartialEq, Eq, Structural)]
pub struct Params {
    /// Layout version.
    pub version: u16,
    /// Serial number, as it appears on the instrument and in every radio frame.
    pub serial: u32,
    /// Length of the acoustic path, in micrometres.
    pub path_um: u32,
    /// The part of that path lying along the pipe, in micrometres.
    pub axial_um: u32,
    /// Cross-sectional area of the bore, in hundredths of a square millimetre.
    pub bore_area_mm2_100: u32,
    /// Correction applied to the computed volume, in parts per million, signed. What a flow rig
    /// produces: an instrument that reads 0.4% low gets +4000.
    pub calibration_ppm: i32,
    /// The difference in flight time this instrument reports at zero flow, in picoseconds,
    /// subtracted from every measurement.
    pub zero_offset_ps: i32,
    /// Excitation frequency the transducers fitted to this instrument want, in hertz.
    pub excitation_hz: u32,
    /// Amplitude that counts as the burst having arrived, for these transducers.
    pub burst_threshold: i16,
    /// Set to [`SEALED`] once the instrument is calibrated.
    pub seal: u16,
    /// How many times these parameters have been written. Only ever increases.
    pub writes: u16,
    /// Checksum over everything above.
    pub crc: u16,
}

/// Why a write was refused.
#[derive(Copy, Clone, Debug, PartialEq, Eq, Structural)]
pub enum WriteError {
    /// The instrument is sealed. That is the point of the seal, and there is no override.
    Sealed,
    /// The write counter has saturated: something has written to this instrument tens of thousands
    /// of times and it should not be trusted.
    CounterExhausted,
}

/// The fields the checksum covers, each little-endian, in declaration order, the checksum itself
/// excluded.
pub open spec fn record_bytes(p: Params) -> Seq<u8> {
    le_bytes(p.version as u32, 2) + le_bytes(p.serial, 4) + le_bytes(p.path_um, 4) + le_bytes(
        p.axial_um,
        4,
    ) + le_bytes(p.bore_area_mm2_100, 4) + le_bytes(p.calibration_ppm as u32, 4) + le_bytes(
        p.zero_offset_ps as u32,
        4,
    ) + le_bytes(p.excitation_hz, 4) + le_bytes(p.burst_threshold as u16 as u32, 2) + le_bytes(
        p.seal as u32,
        2,
    ) + le_bytes(p.writes as u32, 2)
}

/// CRC-16/CCITT over [`record_bytes`].
pub open spec fn expected_crc(p: Params) -> u16 {
    crc16(CCITT_POLY, 0xffff, record_bytes(p))
}

/// Whether a stored copy can be believed.
pub open spec fn is_valid(p: Params) -> bool {
    p.version == VERSION && p.crc == expected_crc(p)
}

/// Whether the instrument is calibrated and sealed.
pub open spec fn sealed(p: Params) -> bool {
    p.seal == SEALED
}

/// `L² / (2·D)` in micrometres, as the `u32` it is kept in; zero when there is no axial length.
pub open spec fn geometry(p: Params) -> u32 {
    if p.axial_um == 0 {
        0
    } else {
        ((p.path_um * p.path_um) / (2 * p.axial_um)) as u32
    }
}

/// What an uncalibrated instrument holds: a nominal 50 mm path at 45 degrees through a 20 mm
/// bore, unsealed.
pub open spec fn nominal() -> Params {
    Params {
        version: VERSION,
        serial: 0,
        path_um: 50_000,
        axial_um: 35_400,
        bore_area_mm2_100: 31_400,
        calibration_ppm: 0,
        zero_offset_ps: 0,
        excitation_hz: 1_000_000,
        burst_threshold: 400,
        seal: 0,
        writes: 0,
        crc: 0,
    }
}

/// The parameters recovered from the two stored copies: the primary if intact, the shadow if
/// not, the nominal ones if neither is.
pub open spec fn recovered(primary: Params, shadow: Params) -> Params {
    if is_valid(primary) {
        primary
    } else if is_valid(shadow) {
        shadow
    } else {
        nominal()
    }
}

/// `new` as it goes to FRAM as write number `writes`: the current layout, the count, and the
/// checksum over both.
pub open spec fn stamped(new: Params, writes: u16) -> Params {
    let out = Params { version: VERSION, writes: writes, ..new };
    Params { crc: expected_crc(out), ..out }
}

/// What a write of `new` comes to, given the parameters the instrument currently holds.
pub open spec fn write_outcome(current: Params, new: Params) -> Result<Params, WriteError> {
    if sealed(current) {
        Err(WriteError::Sealed)
    } else if current.writes == u16::MAX {
        Err(WriteError::CounterExhausted)
    } else {
        Ok(stamped(new, (current.writes + 1) as u16))
    }
}

impl Default for Params {
    /// What an uncalibrated instrument holds. See [`nominal`].
    fn default() -> (r: Self)
        ensures
            r == nominal(),
    {
        Params {
            version: VERSION,
            serial: 0,
            path_um: 50_000,
            axial_um: 35_400,
            bore_area_mm2_100: 31_400,
            calibration_ppm: 0,
            zero_offset_ps: 0,
            excitation_hz: 1_000_000,
            burst_threshold: 400,
            seal: 0,
            writes: 0,
            crc: 0,
        }
    }
}

impl Params {
    /// Whether this instrument has been calibrated and sealed. One that has not must not be
    /// billed from.
    pub fn is_calibrated(&self) -> (r: bool)
        ensures
            r == sealed(*self),
    {
        self.seal == SEALED
    }

    /// `L² / (2·D)` in micrometres — the geometry folded into the one constant the flow equation
    /// needs. Computed rather than stored, so that it cannot come to disagree with the two lengths
    /// it is made of.
    pub fn geometry_um(&self) -> (r: u32)
        ensures
            r == geometry(*self),
    {
        if self.axial_um == 0 {
            return 0;
        }
        let path: u64 = self.path_um as u64;
        proof {
            assert(path * path <= 0xffff_ffffu64 * 0xffff_ffffu64) by (nonlinear_arith)
                requires
                    path <= 0xffff_ffffu64,
            ;
        }
        ((path * path) / (2 * self.axial_um as u64)) as u32
    }

    /// CRC-16/CCITT over the fields, excluding the checksum itself.
    pub fn checksum(&self) -> (r: u16)
        ensures
            r == expected_crc(*self),
    {
        let mut crc: u16 = 0xffff;
        crc = feed(crc, self.version as u32, 2);
        crc = feed(crc, self.serial, 4);
        crc = feed(crc, self.path_um, 4);
        crc = feed(crc, self.axial_um, 4);
        crc = feed(crc, self.bore_area_mm2_100, 4);
        crc = feed(crc, self.calibration_ppm as u32, 4);
        crc = feed(crc, self.zero_offset_ps as u32, 4);
        crc = feed(crc, self.excitation_hz, 4);
        crc = feed(crc, self.burst_threshold as u16 as u32, 2);
        crc = feed(crc, self.seal as u32, 2);
        crc = feed(crc, self.writes as u32, 2);
        proof {
            let s = seq![
                le_bytes(self.version as u32, 2),
                le_bytes(self.serial, 4),
                le_bytes(self.path_um, 4),
                le_bytes(self.axial_um, 4),
                le_bytes(self.bore_area_mm2_100, 4),
                le_bytes(self.calibration_ppm as u32, 4),
                le_bytes(self.zero_offset_ps as u32, 4),
                le_bytes(self.excitation_hz, 4),
                le_bytes(self.burst_threshold as u16 as u32, 2),
                le_bytes(self.seal as u32, 2),
                le_bytes(self.writes as u32, 2),
            ];
            let p1 = s[0];
            let p2 = p1 + s[1];
            let p3 = p2 + s[2];
            let p4 = p3 + s[3];
            let p5 = p4 + s[4];
            let p6 = p5 + s[5];
            let p7 = p6 + s[6];
            let p8 = p7 + s[7];
            let p9 = p8 + s[8];
            let p10 = p9 + s[9];
            lemma_crc16_append(CCITT_POLY, 0xffff, p1, s[1]);
            lemma_crc16_append(CCITT_POLY, 0xffff, p2, s[2]);
            lemma_crc16_append(CCITT_POLY, 0xffff, p3, s[3]);
            lemma_crc16_append(CCITT_POLY, 0xffff, p4, s[4]);
            lemma_crc16_append(CCITT_POLY, 0xffff, p5, s[5]);
            lemma_crc16_append(CCITT_POLY, 0xffff, p6, s[6]);
            lemma_crc16_append(CCITT_POLY, 0xffff, p7, s[7]);
            lemma_crc16_append(CCITT_POLY, 0xffff, p8, s[8]);
            lemma_crc16_append(CCITT_POLY, 0xffff, p9, s[9]);
            lemma_crc16_append(CCITT_POLY, 0xffff, p10, s[10]);
            assert(p10 + s[10] == record_bytes(*self));
        }
        crc
    }
}

/// Whether a stored copy can be believed: the current layout and a checksum that matches.
pub fn valid(p: &Params) -> (r: bool)
    ensures
        r == is_valid(*p),
{
    p.version == VERSION && p.crc == p.checksum()
}

/// The instrument's parameters, from the two copies as they were read back out of FRAM.
///
/// Falls back to the shadow, then to the nominal, uncalibrated defaults. Defaults are not a silent
/// failure: [`Params::is_calibrated`] is false, and the meter is expected to act on that.
pub fn load(primary: &Params, shadow: &Params) -> (r: Params)
    ensures
        r == recovered(*primary, *shadow),
{
    if valid(primary) {
        return *primary;
    }
    if valid(shadow) {
        return *shadow;
    }
    Params::default()
}

/// Prepare a write of `new`, given what the instrument holds now (`current`, as [`load`] found
/// it): refused if the instrument is sealed or its counter is exhausted, otherwise the record to
/// write to both copies, in [`write_order`].
///
/// The counter is incremented here rather than by the caller, so that no path can change a
/// parameter without the change being counted.
pub fn store(current: &Params, new: &Params) -> (r: Result<Params, WriteError>)
    ensures
        r == write_outcome(*current, *new),
        // Every accepted write is counted, and leaves a record that reads back.
        r matches Ok(out) ==> out.writes == current.writes + 1 && is_valid(out),
{
    if current.is_calibrated() {
        return Err(WriteError::Sealed);
    }
    let writes: u16 = match current.writes.checked_add(1) {
        Some(w) => w,
        None => return Err(WriteError::CounterExhausted),
    };
    let mut out: Params = *new;
    out.version = VERSION;
    out.writes = writes;
    out.crc = out.checksum();
    proof {
        assert(record_bytes(out) =~= record_bytes(Params { version: VERSION, writes: writes, ..*new }));
    }
    Ok(out)
}

/// What a read gives back of a write: a record that [`store`] accepted, written to the primary,
/// is what [`load`] recovers, whatever the shadow holds.
pub proof fn lemma_load_returns_stored(current: Params, new: Params, shadow: Params)
    requires
        write_outcome(current, new) is Ok,
    ensures
        recovered(write_outcome(current, new)->Ok_0, shadow) == write_outcome(current, new)->Ok_0,
{
    let out = write_outcome(current, new)->Ok_0;
    assert(record_bytes(out) =~= record_bytes(Params { version: VERSION, writes: out.writes, ..new }));
}

/// The order the two copies of the parameters are written in.
pub open spec fn write_sequence() -> Seq<Slot> {
    seq![Slot::Shadow, Slot::Primary]
}

/// The order to write the two copies of an accepted record in: the shadow, then the primary.
pub fn write_order() -> (r: [Slot; 2])
    ensures
        r@ == write_sequence(),
{
    let r: [Slot; 2] = [Slot::Shadow, Slot::Primary];
    assert(r@ =~= write_sequence());
    r
}

/// A battery pulled in the middle of writing the pair costs at most the newer parameters.
///
/// With `previous` intact in both copies and `next` written in [`write_sequence`]: torn while the
/// shadow is written, the primary still holds `previous`; torn while the primary is written, the
/// shadow holds `next` — unless the torn primary passes its own checksum, in which case it is what
/// is read; completed, `next`.
pub proof fn lemma_torn_write_costs_at_most_newer(previous: Params, next: Params, torn: Params, step: int)
    requires
        is_valid(previous),
        is_valid(next),
        0 <= step <= 2,
    ensures
        ({
            let (primary, shadow) = cut_write(previous, previous, next, write_sequence(), step, torn);
            recovered(primary, shadow) == if step == 0 {
                previous
            } else if step == 1 && is_valid(torn) {
                torn
            } else {
                next
            }
        }),
{
}

/// The seal cannot be undone: once an intact sealed record is in FRAM, every write is refused,
/// whatever it asks for and whatever the other copy holds.
pub proof fn lemma_sealed_refuses_every_write(primary: Params, shadow: Params, new: Params)
    requires
        is_valid(primary),
        sealed(primary),
    ensures
        write_outcome(recovered(primary, shadow), new) == Err::<Params, WriteError>(WriteError::Sealed),
{
}

/// Sealing is final: a write that seals, once accepted and written, leaves an instrument that
/// refuses the next write — and the one after, since nothing then changes.
pub proof fn lemma_sealing_is_final(current: Params, sealing: Params, shadow: Params, next: Params)
    requires
        sealed(sealing),
        write_outcome(current, sealing) is Ok,
    ensures
        sealed(recovered(write_outcome(current, sealing)->Ok_0, shadow)),
        write_outcome(recovered(write_outcome(current, sealing)->Ok_0, shadow), next)
            == Err::<Params, WriteError>(WriteError::Sealed),
{
    lemma_load_returns_stored(current, sealing, shadow);
}

/// The write counter only goes up: each accepted write leaves a record whose counter is one more
/// than the one it replaced.
pub proof fn lemma_counter_only_increases(current: Params, new: Params)
    requires
        write_outcome(current, new) is Ok,
    ensures
        write_outcome(current, new)->Ok_0.writes > current.writes,
{
}

} // verus!
