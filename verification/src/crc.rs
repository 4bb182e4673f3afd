//! The two sixteen-bit cyclic redundancy checks the meter uses.
//!
//! Both are most-significant-bit first with no reflection: CRC-16/CCITT (polynomial 0x1021, seeded
//! with all ones) over the records kept in FRAM, and EN 13757's own (polynomial 0x3D65, seeded
//! with zero, complemented at the end) over the radio frame, in [`crate::radio::wmbus::crc`]. They
//! differ only in the polynomial, the seed and the final step, so the register arithmetic is stated
//! once here.

use vstd::prelude::*;

verus! {

/// The CRC-16/CCITT polynomial.
pub const CCITT_POLY: u16 = 0x1021;

/// EN 13757's polynomial, which is not the CRC-16 anything else uses.
pub const EN13757_POLY: u16 = 0x3d65;

/// One bit of the register: shift left, folding in `poly` when a one falls off the top.
pub open spec fn shift(poly: u16, c: u16) -> u16 {
    if c & 0x8000u16 != 0 {
        (c << 1u16) ^ poly
    } else {
        c << 1u16
    }
}

/// `n` bits of the register.
pub open spec fn shifts(poly: u16, c: u16, n: nat) -> u16
    decreases n,
{
    if n == 0 {
        c
    } else {
        shift(poly, shifts(poly, c, (n - 1) as nat))
    }
}

/// One byte into the register: the byte goes into the top eight bits, then eight shifts.
pub open spec fn byte_step(poly: u16, c: u16, b: u8) -> u16 {
    shifts(poly, c ^ ((b as u16) << 8u16), 8)
}

/// The register after `bytes`, starting from `init`.
pub open spec fn crc16(poly: u16, init: u16, bytes: Seq<u8>) -> u16
    decreases bytes.len(),
{
    if bytes.len() == 0 {
        init
    } else {
        byte_step(poly, crc16(poly, init, bytes.drop_last()), bytes.last())
    }
}

/// The low `n` bytes of `value`, least significant first.
pub open spec fn le_bytes(value: u32, n: nat) -> Seq<u8> {
    Seq::new(n, |i: int| ((value >> ((8 * i) as u32)) & 0xffu32) as u8)
}

/// Feeding two runs of bytes one after the other is feeding their concatenation.
pub proof fn lemma_crc16_append(poly: u16, init: u16, a: Seq<u8>, b: Seq<u8>)
    ensures
        crc16(poly, init, a + b) == crc16(poly, crc16(poly, init, a), b),
    decreases b.len(),
{
    if b.len() == 0 {
        assert(a + b =~= a);
    } else {
        assert((a + b).drop_last() =~= a + b.drop_last());
        assert((a + b).last() == b.last());
        lemma_crc16_append(poly, init, a, b.drop_last());
    }
}

/// One byte through the register.
pub fn step_byte(poly: u16, crc: u16, byte: u8) -> (r: u16)
    ensures
        r == byte_step(poly, crc, byte),
{
    let start: u16 = crc ^ ((byte as u16) << 8u16);
    let mut c: u16 = start;
    let mut j: u32 = 0;
    while j < 8
        invariant
            j <= 8,
            c == shifts(poly, start, j as nat),
        decreases 8 - j,
    {
        c = if c & 0x8000 != 0 {
            (c << 1u16) ^ poly
        } else {
            c << 1u16
        };
        j = j + 1;
    }
    c
}

/// The low `bytes` bytes of `value`, least significant first, through a CRC-16/CCITT register
/// holding `crc`.
pub fn feed(crc: u16, value: u32, bytes: u32) -> (r: u16)
    requires
        bytes <= 4,
    ensures
        r == crc16(CCITT_POLY, crc, le_bytes(value, bytes as nat)),
{
    let mut c: u16 = crc;
    let mut i: u32 = 0;
    while i < bytes
        invariant
            i <= bytes <= 4,
            c == crc16(CCITT_POLY, crc, le_bytes(value, i as nat)),
        decreases bytes - i,
    {
        let b: u8 = ((value >> (8 * i)) & 0xff) as u8;
        assert(le_bytes(value, (i + 1) as nat).drop_last() =~= le_bytes(value, i as nat));
        c = step_byte(CCITT_POLY, c, b);
        i = i + 1;
    }
    c
}

} // verus!
