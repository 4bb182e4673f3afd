//! The CC1101, transmitting only.
//!
//! Receiving costs 15.6 mA; an instrument that listened even one per cent of the time would draw
//! seventy times everything else in this meter. So this radio never receives: it wakes, is
//! configured from scratch — it loses its registers in power-down, which is where it spends its
//! life at 200 nA — sends a frame, and goes back down.
//!
//! The SPI bus and the chip select are driven from outside. What is worked out here is every
//! transfer, each framed by the chip select, and when the radio has finished.
//!
//! The register settings are TI's own values for 868.95 MHz, 100 kbps 2-FSK — the wM-Bus C1 air
//! interface. **None of this has been near an antenna.**

use vstd::prelude::*;

verus! {

/// Header bit: read rather than write.
pub const READ: u8 = 0x80;
/// Header bit: burst, meaning the address auto-increments.
pub const BURST: u8 = 0x40;

/// Command strobe: reset.
pub const SRES: u8 = 0x30;
/// Command strobe: transmit.
pub const STX: u8 = 0x35;
/// Command strobe: idle.
pub const SIDLE: u8 = 0x36;
/// Command strobe: power down.
pub const SPWD: u8 = 0x39;
/// Command strobe: flush the transmit FIFO.
pub const SFTX: u8 = 0x3b;

/// The transmit FIFO.
pub const FIFO: u8 = 0x3f;
/// `PKTLEN`, which in fixed-length mode is how many bytes go out.
pub const PKTLEN: u8 = 0x06;
/// `MARCSTATE`, the state machine's own view of what it is doing.
pub const MARCSTATE: u8 = 0x35 | 0xc0;
/// `PATABLE`, the output power table.
pub const PATABLE: u8 = 0x3e;
/// `SYNC1` and `SYNC0`.
pub const SYNC1: u8 = 0x04;
/// See [`SYNC1`].
pub const SYNC0: u8 = 0x05;

/// Sync word for wM-Bus mode C, frame format A.
pub const SYNC: [u8; 2] = [0x54, 0x3d];

/// Output power: 12.0 dBm at 35.0 mA with wirewound matching inductors. With multilayer
/// inductors the same setting leaves no margin against EN 300 220, so this and the board's bill of
/// materials have to agree.
pub const PA_POWER: u8 = 0xc0;

/// The longest frame the FIFO takes in one go.
pub const MAX_FRAME: usize = 64;

/// How many times the state machine is asked whether it has finished before the radio is put down
/// regardless: a radio that never finishes must not take the meter down with it.
pub const POLL_LIMIT: u32 = 20_000;

/// Configuration for 868.95 MHz, 100 kbps 2-FSK, fixed length, CRC off — wM-Bus carries its own.
/// Register addresses, then values.
pub const CONFIG_ADDR: [u8; 21] = [
    0x02, 0x03, 0x08, 0x07, 0x0b, 0x0d, 0x0e, 0x0f, 0x10, 0x11, 0x12, 0x13, 0x14, 0x15, 0x17, 0x18,
    0x21, 0x22, 0x23, 0x24, 0x25,
];
/// See [`CONFIG_ADDR`].
pub const CONFIG_VALUE: [u8; 21] = [
    0x06, 0x07, 0x00, 0x00, 0x08, 0x21, 0x65, 0x6a, 0x5c, 0x04, 0x05, 0x22, 0xf8, 0x44, 0x30, 0x18,
    0x56, 0x10, 0xea, 0x2a, 0x00,
];

/// The transfers that bring the radio out of power-down and configure it for a frame of `length`
/// bytes: idle, every register of the configuration, the sync word, the length, then the power
/// table as a burst write of one entry.
pub open spec fn configure_script(length: u8) -> Seq<Seq<u8>> {
    seq![seq![SIDLE]] + Seq::new(21, |i: int| seq![CONFIG_ADDR@[i], CONFIG_VALUE@[i]]) + seq![
        seq![SYNC1, SYNC@[0]],
        seq![SYNC0, SYNC@[1]],
        seq![PKTLEN, length],
        seq![PATABLE | BURST, PA_POWER],
    ]
}

/// Everything up to the frame going out: the configuration, a flushed FIFO, the frame written into
/// it as one burst, and the transmit strobe.
pub open spec fn transmit_script(frame: Seq<u8>) -> Seq<Seq<u8>> {
    configure_script(frame.len() as u8) + seq![seq![SFTX], seq![FIFO | BURST] + frame, seq![STX]]
}

/// A transfer of `bytes`, as the chip select frames it.
fn transfer(bytes: &[u8]) -> (r: Vec<u8>)
    ensures
        r@ == bytes@,
{
    let mut out: Vec<u8> = Vec::new();
    let mut i: usize = 0;
    while i < bytes.len()
        invariant
            i <= bytes.len(),
            out@ == bytes@.take(i as int),
        decreases bytes.len() - i,
    {
        out.push(bytes[i]);
        i = i + 1;
        proof {
            assert(bytes@.take(i as int) =~= bytes@.take((i - 1) as int).push(bytes@[i - 1]));
        }
    }
    assert(bytes@.take(bytes.len() as int) =~= bytes@);
    out
}

/// The transfers that reset a freshly taken radio and leave it powered down.
pub fn reset_script() -> (r: Vec<Vec<u8>>)
    ensures
        r@.len() == 2,
        r@[0]@ == seq![SRES],
        r@[1]@ == seq![SPWD],
{
    let mut r: Vec<Vec<u8>> = Vec::new();
    r.push(vec![SRES]);
    r.push(vec![SPWD]);
    r
}

/// The transfers that send `frame`, up to the transmit strobe; `None`, with nothing sent, for an
/// empty frame or one longer than the FIFO.
pub fn transmit_transfers(frame: &[u8]) -> (r: Option<Vec<Vec<u8>>>)
    ensures
        (frame@.len() == 0 || frame@.len() > MAX_FRAME) ==> r is None,
        0 < frame@.len() <= MAX_FRAME ==> (r matches Some(script) && script@.len() == 29 && (forall|
            i: int,
        | 0 <= i < 29 ==> #[trigger] script@[i]@ == transmit_script(frame@)[i])),
{
    if frame.len() == 0 || frame.len() > MAX_FRAME {
        return None;
    }
    let length: u8 = frame.len() as u8;
    let mut script: Vec<Vec<u8>> = Vec::new();
    script.push(vec![SIDLE]);
    let mut i: usize = 0;
    while i < 21
        invariant
            i <= 21,
            length == frame@.len(),
            script@.len() == 1 + i,
            forall|j: int| 0 <= j < 1 + i ==> #[trigger] script@[j]@ == configure_script(length)[j],
        decreases 21 - i,
    {
        proof {
            let c = configure_script(length);
            assert(c[1 + i] == seq![CONFIG_ADDR@[i as int], CONFIG_VALUE@[i as int]]);
        }
        script.push(vec![CONFIG_ADDR[i], CONFIG_VALUE[i]]);
        i = i + 1;
    }
    script.push(vec![SYNC1, SYNC[0]]);
    script.push(vec![SYNC0, SYNC[1]]);
    script.push(vec![PKTLEN, length]);
    script.push(vec![PATABLE | BURST, PA_POWER]);
    script.push(vec![SFTX]);
    let mut burst: Vec<u8> = vec![FIFO | BURST];
    let body: Vec<u8> = transfer(frame);
    let mut k: usize = 0;
    while k < body.len()
        invariant
            k <= body.len(),
            body@ == frame@,
            burst@ == seq![FIFO | BURST] + frame@.take(k as int),
        decreases body.len() - k,
    {
        burst.push(body[k]);
        k = k + 1;
        proof {
            assert(frame@.take(k as int) =~= frame@.take((k - 1) as int).push(frame@[k - 1]));
        }
    }
    assert(frame@.take(frame@.len() as int) =~= frame@);
    script.push(burst);
    script.push(vec![STX]);
    proof {
        let c = configure_script(length);
        let t = transmit_script(frame@);
        assert(c.len() == 26);
        assert(c[22] == seq![SYNC1, SYNC@[0]]);
        assert(c[23] == seq![SYNC0, SYNC@[1]]);
        assert(c[24] == seq![PKTLEN, length]);
        assert(c[25] == seq![PATABLE | BURST, PA_POWER]);
        assert(frame@.len() as u8 == length);
        assert forall|j: int| 0 <= j < 29 implies #[trigger] script@[j]@ == t[j] by {
            if j < 26 {
                assert(t[j] == c[j]);
            } else if j == 26 {
                assert(t[j] == seq![SFTX]);
            } else if j == 27 {
                assert(t[j] == seq![FIFO | BURST] + frame@);
            } else {
                assert(t[j] == seq![STX]);
            }
        }
    }
    Some(script)
}

/// The transfer that asks the state machine what it is doing; the answer comes back in its second
/// byte.
pub fn status_transfer() -> (r: [u8; 2])
    ensures
        r@ == seq![MARCSTATE | READ, 0u8],
{
    let r: [u8; 2] = [MARCSTATE | READ, 0];
    assert(r@ =~= seq![MARCSTATE | READ, 0u8]);
    r
}

/// Whether the state machine is still transmitting: `MARCSTATE` 0x13 is TX, and anything else
/// means it has finished or never started.
pub fn still_transmitting(marcstate: u8) -> (r: bool)
    ensures
        r == (marcstate & 0x1fu8 == 0x13u8),
{
    marcstate & 0x1f == 0x13
}

/// The transfers that put the radio back down after a frame: idle, flush, power down — 200 nA
/// until the next one.
pub fn shutdown_script() -> (r: Vec<Vec<u8>>)
    ensures
        r@.len() == 3,
        r@[0]@ == seq![SIDLE],
        r@[1]@ == seq![SFTX],
        r@[2]@ == seq![SPWD],
{
    let mut r: Vec<Vec<u8>> = Vec::new();
    r.push(vec![SIDLE]);
    r.push(vec![SFTX]);
    r.push(vec![SPWD]);
    r
}

} // verus!
