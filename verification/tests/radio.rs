use uflowmeter::legal::totals::Totals;
use uflowmeter::radio::cc1101::{
    reset_script, shutdown_script, status_transfer, still_transmitting, transmit_transfers,
    CONFIG_ADDR, CONFIG_VALUE,
};
use uflowmeter::radio::next_reading;
use uflowmeter::radio::wmbus::{frame, manufacturer, to_bcd8, Reading, MANUFACTURER, MAX_FRAME};

#[test]
fn manufacturer_code_is_lva() {
    assert_eq!(manufacturer(b'L', b'V', b'A'), MANUFACTURER);
    assert_eq!(MANUFACTURER, 0x32c1);
    assert_eq!(manufacturer(b'A', b'A', b'A'), (1 << 10) | (1 << 5) | 1);
}

#[test]
fn bcd_packs_digits() {
    assert_eq!(to_bcd8(0), 0);
    assert_eq!(to_bcd8(1234), 0x1234);
    assert_eq!(to_bcd8(12_345_678), 0x1234_5678);
    assert_eq!(to_bcd8(99_999_999), 0x9999_9999);
}

#[test]
fn bcd_saturates() {
    assert_eq!(to_bcd8(100_000_000), 0x9999_9999);
    assert_eq!(to_bcd8(u32::MAX), 0x9999_9999);
}

#[test]
fn bcd_reads_back() {
    for v in [0u32, 7, 10, 99, 100, 4_567, 98_765_432, 99_999_999] {
        let b = to_bcd8(v);
        let mut x = b;
        let mut back = 0u32;
        let mut scale = 1u32;
        for _ in 0..8 {
            assert!(x % 16 < 10);
            back += (x % 16) * scale;
            x /= 16;
            scale = scale.wrapping_mul(10);
        }
        assert_eq!(back, v);
    }
}

#[test]
fn frame_layout() {
    let reading = Reading { serial: 0x1234_5678, litres: 1234, access: 7, status: 0 };
    let mut out = [0xaau8; MAX_FRAME];
    let n = frame(&reading, &mut out);
    assert_eq!(n, 25);
    assert_eq!(
        &out[..n],
        &[
            20, 0x44, 0xc1, 0x32, 0x78, 0x56, 0x34, 0x12, 0x01, 0x07, 0x7a, 65, 92, 7, 0, 0, 0,
            0x0c, 0x13, 0x34, 0x12, 0x00, 0x00, 71, 97
        ]
    );
    assert!(out[n..].iter().all(|&b| b == 0xaa));
}

#[test]
fn frame_reports_saturated_litres() {
    let reading = Reading { serial: 1, litres: u32::MAX, access: 0, status: 0x04 };
    let mut out = [0u8; MAX_FRAME];
    let n = frame(&reading, &mut out);
    assert_eq!(n, 25);
    assert_eq!(out[14], 0x04);
    assert_eq!(&out[19..23], &[0x99, 0x99, 0x99, 0x99]);
}

#[test]
fn access_number_advances_and_wraps() {
    let totals = Totals { litres: 55, ..Totals::default() };
    let mut access = 254u8;
    let r = next_reading(&mut access, &totals, 9, 0x08);
    assert_eq!(r, Reading { serial: 9, litres: 55, access: 254, status: 0x08 });
    assert_eq!(access, 255);
    let r = next_reading(&mut access, &totals, 9, 0);
    assert_eq!(r.access, 255);
    assert_eq!(access, 0);
}

#[test]
fn transmit_script_layout() {
    let f = [1u8, 2, 3];
    let script = transmit_transfers(&f).unwrap();
    assert_eq!(script.len(), 29);
    assert_eq!(script[0], vec![0x36]);
    for i in 0..21 {
        assert_eq!(script[1 + i], vec![CONFIG_ADDR[i], CONFIG_VALUE[i]]);
    }
    assert_eq!(script[1], vec![0x02, 0x06]);
    assert_eq!(script[22], vec![0x04, 0x54]);
    assert_eq!(script[23], vec![0x05, 0x3d]);
    assert_eq!(script[24], vec![0x06, 3]);
    assert_eq!(script[25], vec![0x7e, 0xc0]);
    assert_eq!(script[26], vec![0x3b]);
    assert_eq!(script[27], vec![0x7f, 1, 2, 3]);
    assert_eq!(script[28], vec![0x35]);
}

#[test]
fn transmit_refuses_empty_and_oversized() {
    assert!(transmit_transfers(&[]).is_none());
    assert!(transmit_transfers(&[0u8; 65]).is_none());
    assert!(transmit_transfers(&[0u8; 64]).is_some());
}

#[test]
fn radio_power_scripts() {
    assert_eq!(reset_script(), vec![vec![0x30], vec![0x39]]);
    assert_eq!(shutdown_script(), vec![vec![0x36], vec![0x3b], vec![0x39]]);
    assert_eq!(status_transfer(), [0xf5, 0]);
    assert!(still_transmitting(0x13));
    assert!(still_transmitting(0xf3));
    assert!(!still_transmitting(0x01));
}
