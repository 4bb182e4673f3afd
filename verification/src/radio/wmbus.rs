//! Wireless M-Bus frames, EN 13757-4, mode C1.
//!
//! C1 sends the bytes as they are, where T1 would encode every byte as 3-out-of-6 symbols: the
//! frame is shorter for the same payload, and it is the mode OMS recommends for battery meters.
//!
//! On air, after the preamble and sync word the radio generates, goes Format A: a length, a control
//! field, who is transmitting, and the data — with EN 13757's own CRC after the first ten bytes and
//! after the data block.
//!
//! **Unencrypted.** A real deployment runs OMS security profile A or B; the configuration word below
//! is the field that will change first when the AES accelerator is put to work.

use vstd::prelude::*;
use crate::crc::{crc16, step_byte, EN13757_POLY};

verus! {

/// A manufacturer code: three letters, five bits each, most significant first, each letter its
/// position in the alphabet.
pub open spec fn manufacturer_code(a: u8, b: u8, c: u8) -> u16 {
    (((a - 64) as u16) << 10u16) | (((b - 64) as u16) << 5u16) | ((c - 64) as u16)
}

/// Manufacturer code, three letters packed into fifteen bits.
pub fn manufacturer(a: u8, b: u8, c: u8) -> (r: u16)
    requires
        a >= 64,
        b >= 64,
        c >= 64,
    ensures
        r == manufacturer_code(a, b, c),
{
    (((a - 64) as u16) << 10u16) | (((b - 64) as u16) << 5u16) | ((c - 64) as u16)
}

/// This instrument's manufacturer field, `LVA`. **A placeholder**: a real product needs a code
/// allocated by the DLMS User Association.
pub const MANUFACTURER: u16 = 0x32c1;

/// [`MANUFACTURER`] is the code for the letters `LVA`.
pub proof fn lemma_manufacturer_is_lva()
    ensures
        MANUFACTURER == manufacturer_code(76, 86, 65),
{
    assert((12u16 << 10u16) | (22u16 << 5u16) | 1u16 == 0x32c1u16) by (bit_vector);
}

/// Device type 0x07: water meter.
pub const DEVICE_WATER: u8 = 0x07;
/// Version of this instrument's own frame layout, reported in the address field.
pub const GENERATION: u8 = 0x01;
/// C-field 0x44: SND-NR, a send with no reply expected.
pub const C_SND_NR: u8 = 0x44;
/// CI-field 0x7A: a short transport header, followed by data records.
pub const CI_SHORT_HEADER: u8 = 0x7a;

/// Status bit: the instrument has not been calibrated, so nothing here may be billed from.
pub const STATUS_NOT_CALIBRATED: u8 = 0x04;
/// Status bit: the battery is low.
pub const STATUS_BATTERY_LOW: u8 = 0x08;
/// Status bit: no echo was found on the last measurements.
pub const STATUS_NO_ECHO: u8 = 0x10;

/// EN 13757's CRC: polynomial 0x3D65, initial value zero, final complement.
///
/// Not any of the common CRC-16s. Getting this wrong produces frames that look perfectly well
/// formed and that every receiver silently discards.
pub fn crc(data: &[u8]) -> (r: u16)
    ensures
        r == !crc16(EN13757_POLY, 0, data@),
{
    let mut c: u16 = 0;
    let mut i: usize = 0;
    while i < data.len()
        invariant
            i <= data.len(),
            c == crc16(EN13757_POLY, 0, data@.take(i as int)),
        decreases data.len() - i,
    {
        assert(data@.take((i + 1) as int).drop_last() =~= data@.take(i as int));
        c = step_byte(EN13757_POLY, c, data[i]);
        i = i + 1;
    }
    assert(data@.take(data.len() as int) =~= data@);
    !c
}

/// The longest frame this builds.
pub const MAX_FRAME: usize = 32;

/// The largest value eight BCD digits hold.
pub const BCD8_MAX: u32 = 99_999_999;

/// The reading, as it goes on air.
#[derive(Copy, Clone, Debug, PartialEq, Eq, Structural)]
pub struct Reading {
    /// The instrument's serial number, which becomes the address field.
    pub serial: u32,
    /// Volume in litres.
    pub litres: u32,
    /// Increments on every transmission, so a receiver can tell a repeat from a fresh reading.
    pub access: u8,
    /// Status byte: zero when all is well.
    pub status: u8,
}

/// `v`'s lowest `digits` decimal digits, packed four bits each, least significant digit lowest.
pub open spec fn packed_bcd(v: nat, digits: nat) -> nat
    decreases digits,
{
    if digits == 0 {
        0
    } else {
        v % 10 + 16 * packed_bcd(v / 10, (digits - 1) as nat)
    }
}

/// What `digits` packed nibbles of `x` read as, in decimal.
pub open spec fn bcd_value(x: nat, digits: nat) -> nat
    decreases digits,
{
    if digits == 0 {
        0
    } else {
        x % 16 + 10 * bcd_value(x / 16, (digits - 1) as nat)
    }
}

/// Whether each of the lowest `digits` nibbles of `x` is a decimal digit.
pub open spec fn all_decimal(x: nat, digits: nat) -> bool
    decreases digits,
{
    digits == 0 || (x % 16 < 10 && all_decimal(x / 16, (digits - 1) as nat))
}

/// Ten to the `n`.
pub open spec fn pow10(n: nat) -> nat
    decreases n,
{
    if n == 0 {
        1
    } else {
        10 * pow10((n - 1) as nat)
    }
}

/// `value`, held at [`BCD8_MAX`].
pub open spec fn capped(value: u32) -> nat {
    if value > BCD8_MAX {
        BCD8_MAX as nat
    } else {
        value as nat
    }
}

proof fn lemma_pow10_positive(n: nat)
    ensures
        pow10(n) > 0,
    decreases n,
{
    if n > 0 {
        lemma_pow10_positive((n - 1) as nat);
    }
}

/// Packing a number into BCD and reading it back gives its low decimal digits, every nibble a
/// decimal digit on the way.
pub proof fn lemma_bcd_roundtrip(v: nat, n: nat)
    ensures
        bcd_value(packed_bcd(v, n), n) == v % pow10(n),
        all_decimal(packed_bcd(v, n), n),
    decreases n,
{
    if n > 0 {
        let rest = packed_bcd(v / 10, (n - 1) as nat);
        let x = v % 10 + 16 * rest;
        vstd::arithmetic::div_mod::lemma_fundamental_div_mod_converse(x as int, 16, rest as int, (v % 10) as int);
        lemma_bcd_roundtrip(v / 10, (n - 1) as nat);
        lemma_pow10_positive((n - 1) as nat);
        vstd::arithmetic::div_mod::lemma_mod_breakdown(v as int, 10, pow10((n - 1) as nat) as int);
    }
}

/// What the meter reports is what a receiver reads: the eight digits in the frame decode to the
/// litres, or to 99 999 999 for a meter that has counted past the field — stuck at the top rather
/// than gone back to zero.
pub proof fn lemma_reported_litres_read_back(litres: u32)
    ensures
        bcd_value(packed_bcd(capped(litres), 8), 8) == capped(litres),
        all_decimal(packed_bcd(capped(litres), 8), 8),
        litres <= BCD8_MAX ==> capped(litres) == litres,
{
    lemma_bcd_roundtrip(capped(litres), 8);
    reveal_with_fuel(pow10, 9);
    assert(pow10(8) == 100_000_000);
}

proof fn lemma_nibble_or(out: u32, d: u32, shift: u32)
    requires
        shift <= 28,
        d < 16,
        out < (1u32 << shift),
    ensures
        out | (d << shift) == out + (d << shift),
{
    assert(out | (d << shift) == out + (d << shift)) by (bit_vector)
        requires
            shift <= 28,
            d < 16,
            out < (1u32 << shift),
    ;
}

/// Eight decimal digits packed two to a byte, least significant byte first — what M-Bus calls
/// BCD. Values that do not fit saturate at 99 999 999 rather than wrapping.
pub fn to_bcd8(value: u32) -> (r: u32)
    ensures
        r == packed_bcd(capped(value), 8),
{
    let mut v: u32 = if value > BCD8_MAX {
        BCD8_MAX
    } else {
        value
    };
    let ghost v0: nat = v as nat;
    let mut out: u32 = 0;
    let mut shift: u32 = 0;
    let ghost mut k: nat = 0;
    proof {
        vstd::arithmetic::power2::lemma2_to64();
    }
    while shift < 32
        invariant
            shift == 4 * k,
            v0 == capped(value),
            k <= 8,
            out < vstd::arithmetic::power2::pow2(shift as nat),
            out + vstd::arithmetic::power2::pow2(shift as nat) * packed_bcd(v as nat, (8 - k) as nat)
                == packed_bcd(v0, 8),
        decreases 32 - shift,
    {
        let d: u32 = v % 10;
        proof {
            let p = vstd::arithmetic::power2::pow2(shift as nat);
            vstd::arithmetic::power2::lemma2_to64();
            if shift < 28 {
                vstd::arithmetic::power2::lemma_pow2_strictly_increases(shift as nat, 28);
            }
            assert(d * p <= 9 * 0x1000_0000) by (nonlinear_arith)
                requires
                    d <= 9,
                    p <= 0x1000_0000,
            ;
            vstd::bits::lemma_u32_shl_is_mul(d, shift);
            vstd::bits::lemma_u32_shl_is_mul(1, shift);
            lemma_nibble_or(out, d, shift);
            vstd::arithmetic::power2::lemma_pow2_adds(shift as nat, 4);
            let rest = packed_bcd((v / 10) as nat, (8 - k - 1) as nat);
            assert(packed_bcd(v as nat, (8 - k) as nat) == d + 16 * rest);
            assert(out + d * p + (p * 16) * rest == out + p * (d + 16 * rest)) by (nonlinear_arith);
            assert(out + d * p < p * 16) by (nonlinear_arith)
                requires
                    out < p,
                    d <= 9,
                    p > 0,
            ;
        }
        out = out | (d << shift);
        v = v / 10;
        shift = shift + 4;
        proof {
            k = k + 1;
        }
    }
    proof {
        // All eight digits are out: nothing is left to pack.
        let z = packed_bcd(v as nat, (8 - k) as nat);
        let p = vstd::arithmetic::power2::pow2(shift as nat);
        assert(z == 0);
        assert(p * z == 0) by (nonlinear_arith)
            requires
                z == 0,
        ;
    }
    out
}

/// The first block: everything that identifies the instrument.
pub open spec fn head_bytes(r: Reading) -> Seq<u8> {
    seq![
        C_SND_NR,
        MANUFACTURER as u8,
        (MANUFACTURER >> 8u16) as u8,
        r.serial as u8,
        (r.serial >> 8u32) as u8,
        (r.serial >> 16u32) as u8,
        (r.serial >> 24u32) as u8,
        GENERATION,
        DEVICE_WATER,
        CI_SHORT_HEADER,
    ]
}

/// The second block: the short transport header — access number, status, a configuration word
/// saying "no encryption" — then one record, DIF 0x0C VIF 0x13, eight BCD digits of litres.
pub open spec fn body_bytes(r: Reading) -> Seq<u8> {
    let bcd = packed_bcd(capped(r.litres), 8) as u32;
    seq![
        r.access,
        r.status,
        0x00,
        0x00,
        0x0c,
        0x13,
        bcd as u8,
        (bcd >> 8u32) as u8,
        (bcd >> 16u32) as u8,
        (bcd >> 24u32) as u8,
    ]
}

/// The CRC that follows a block: EN 13757's, most significant byte first.
pub open spec fn crc_field(block: Seq<u8>) -> Seq<u8> {
    let c = !crc16(EN13757_POLY, 0, block);
    seq![(c >> 8u16) as u8, c as u8]
}

/// The whole frame: the length — which counts everything after itself except the CRCs — then each
/// block followed by its CRC.
pub open spec fn frame_bytes(r: Reading) -> Seq<u8> {
    seq![20u8] + head_bytes(r) + crc_field(head_bytes(r)) + body_bytes(r) + crc_field(body_bytes(r))
}

/// The L-field counts everything after itself except the CRCs: the two blocks, ten bytes each.
/// The frame is that, the L-field, and a two-byte CRC after each block.
pub proof fn lemma_length_field_counts_blocks(r: Reading)
    ensures
        frame_bytes(r)[0] == head_bytes(r).len() + body_bytes(r).len(),
        frame_bytes(r).len() == 1 + head_bytes(r).len() + 2 + body_bytes(r).len() + 2,
        frame_bytes(r).subrange(1, 11) == head_bytes(r),
        frame_bytes(r).subrange(13, 23) == body_bytes(r),
{
    assert(frame_bytes(r).subrange(1, 11) =~= head_bytes(r));
    assert(frame_bytes(r).subrange(13, 23) =~= body_bytes(r));
}

/// Four bytes read as a little-endian number.
pub open spec fn le_value(b: Seq<u8>) -> nat {
    (b[0] + 256 * b[1] + 65_536 * b[2] + 16_777_216 * b[3]) as nat
}

/// Sixteen to the `n`.
pub open spec fn pow16(n: nat) -> nat
    decreases n,
{
    if n == 0 {
        1
    } else {
        16 * pow16((n - 1) as nat)
    }
}

proof fn lemma_packed_bcd_fits(v: nat, n: nat)
    ensures
        packed_bcd(v, n) < pow16(n),
    decreases n,
{
    if n > 0 {
        lemma_packed_bcd_fits(v / 10, (n - 1) as nat);
        let rest = packed_bcd(v / 10, (n - 1) as nat);
        assert(v % 10 + 16 * rest < 16 * pow16((n - 1) as nat)) by (nonlinear_arith)
            requires
                v % 10 < 10,
                rest < pow16((n - 1) as nat),
        ;
    }
}

/// What a receiver reads from the frame is the reading: the data record's four value bytes,
/// taken least significant first as M-Bus sends them, are eight BCD digits — each nibble a decimal
/// digit — that read as the litres, held at 99 999 999 for a meter past the field. The record
/// itself is introduced as eight BCD digits of litres, and the transport header before it carries
/// the access number and the status.
pub proof fn lemma_frame_carries_litres(r: Reading)
    ensures
        bcd_value(le_value(frame_bytes(r).subrange(19, 23)), 8) == capped(r.litres),
        all_decimal(le_value(frame_bytes(r).subrange(19, 23)), 8),
        frame_bytes(r)[13] == r.access,
        frame_bytes(r)[14] == r.status,
        frame_bytes(r)[17] == 0x0c,
        frame_bytes(r)[18] == 0x13,
{
    lemma_length_field_counts_blocks(r);
    let packed = packed_bcd(capped(r.litres), 8);
    lemma_packed_bcd_fits(capped(r.litres), 8);
    reveal_with_fuel(pow16, 9);
    assert(pow16(8) == 0x1_0000_0000);
    let x: u32 = packed as u32;
    assert(x == packed);
    let b = frame_bytes(r).subrange(19, 23);
    assert(b[0] == x as u8 && b[1] == (x >> 8u32) as u8 && b[2] == (x >> 16u32) as u8 && b[3] == (x
        >> 24u32) as u8) by {
        assert(b == body_bytes(r).subrange(6, 10));
    }
    assert((x as u8) + 256 * ((x >> 8u32) as u8) + 65_536 * ((x >> 16u32) as u8) + 16_777_216 * ((x
        >> 24u32) as u8) == x) by (bit_vector);
    assert(le_value(b) == packed);
    lemma_reported_litres_read_back(r.litres);
}

/// `src` onto the end of `dst`.
fn append(dst: &mut Vec<u8>, src: &[u8])
    ensures
        final(dst)@ == old(dst)@ + src@,
{
    let mut i: usize = 0;
    while i < src.len()
        invariant
            i <= src.len(),
            dst@ == old(dst)@ + src@.take(i as int),
        decreases src.len() - i,
    {
        dst.push(src[i]);
        i = i + 1;
        proof {
            assert(src@.take(i as int) =~= src@.take((i - 1) as int).push(src@[i - 1]));
        }
    }
    assert(src@.take(src.len() as int) =~= src@);
}

/// A block followed by its CRC onto the end of `dst`.
fn append_block(dst: &mut Vec<u8>, block: &[u8])
    ensures
        final(dst)@ == old(dst)@ + block@ + crc_field(block@),
{
    append(dst, block);
    let c: u16 = crc(block);
    dst.push((c >> 8u16) as u8);
    dst.push(#[verifier::truncate] (c as u8));
    assert(dst@ =~= old(dst)@ + block@ + crc_field(block@));
}

/// Build a Format A frame into `out`, returning how much of it is used.
///
/// Two blocks is all this instrument needs — the reading is one record. The rest of `out` is left
/// as it was.
pub fn frame(reading: &Reading, out: &mut [u8; MAX_FRAME]) -> (n: usize)
    ensures
        n == 25,
        final(out)@.subrange(0, 25) == frame_bytes(*reading),
        final(out)@.subrange(25, 32) == old(out)@.subrange(25, 32),
{
    let head: [u8; 10] = [
        C_SND_NR,
        #[verifier::truncate] (MANUFACTURER as u8),
        (MANUFACTURER >> 8u16) as u8,
        #[verifier::truncate] (reading.serial as u8),
        #[verifier::truncate] ((reading.serial >> 8u32) as u8),
        #[verifier::truncate] ((reading.serial >> 16u32) as u8),
        (reading.serial >> 24u32) as u8,
        GENERATION,
        DEVICE_WATER,
        CI_SHORT_HEADER,
    ];
    let bcd: u32 = to_bcd8(reading.litres);
    let body: [u8; 10] = [
        reading.access,
        reading.status,
        0x00,
        0x00,
        0x0c,
        0x13,
        #[verifier::truncate] (bcd as u8),
        #[verifier::truncate] ((bcd >> 8u32) as u8),
        #[verifier::truncate] ((bcd >> 16u32) as u8),
        (bcd >> 24u32) as u8,
    ];
    assert(head@ =~= head_bytes(*reading));
    assert(body@ =~= body_bytes(*reading));

    let mut bytes: Vec<u8> = Vec::new();
    // The L-field counts everything after itself except the CRCs.
    bytes.push(20);
    append_block(&mut bytes, head.as_slice());
    append_block(&mut bytes, body.as_slice());
    assert(bytes@ =~= frame_bytes(*reading));

    let mut i: usize = 0;
    while i < 25
        invariant
            i <= 25,
            bytes@ == frame_bytes(*reading),
            bytes@.len() == 25,
            forall|j: int| 0 <= j < i ==> out@[j] == bytes@[j],
            forall|j: int| 25 <= j < 32 ==> out@[j] == old(out)@[j],
        decreases 25 - i,
    {
        out[i] = bytes[i];
        i = i + 1;
    }
    assert(out@.subrange(0, 25) =~= frame_bytes(*reading));
    assert(out@.subrange(25, 32) =~= old(out)@.subrange(25, 32));
    25
}

} // verus!
