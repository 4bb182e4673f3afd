use uflowmeter::crc::{feed, step_byte, CCITT_POLY};
use uflowmeter::radio::wmbus::crc;
use uflowmeter::legal::flow::{compute, computable, volume_ul, Flow};
use uflowmeter::legal::fram::{self, Slot};
use uflowmeter::legal::identity::{image_end, image_len, SOFTWARE_VERSION};
use uflowmeter::legal::params::{self, Params, WriteError, SEALED};
use uflowmeter::legal::totals::{self, Totals};

/// CRC-16, most significant bit first, written out independently of the library.
fn reference_crc(poly: u16, init: u16, data: &[u8]) -> u16 {
    let mut c = init;
    for &b in data {
        c ^= (b as u16) << 8;
        for _ in 0..8 {
            c = if c & 0x8000 != 0 { (c << 1) ^ poly } else { c << 1 };
        }
    }
    c
}

fn le(v: u32, n: usize) -> Vec<u8> {
    (0..n).map(|i| (v >> (8 * i)) as u8).collect()
}

fn totals_bytes(t: &Totals) -> Vec<u8> {
    let mut b = le(t.version as u32, 2);
    for v in [t.litres, t.microlitres, t.reverse_litres, t.measurements, t.missed] {
        b.extend(le(v, 4));
    }
    b
}

fn params_bytes(p: &Params) -> Vec<u8> {
    let mut b = le(p.version as u32, 2);
    for v in [
        p.serial,
        p.path_um,
        p.axial_um,
        p.bore_area_mm2_100,
        p.calibration_ppm as u32,
        p.zero_offset_ps as u32,
        p.excitation_hz,
    ] {
        b.extend(le(v, 4));
    }
    b.extend(le(p.burst_threshold as u16 as u32, 2));
    b.extend(le(p.seal as u32, 2));
    b.extend(le(p.writes as u32, 2));
    b
}

#[test]
fn ccitt_check_value() {
    let mut c = 0xffffu16;
    for &b in b"123456789" {
        c = step_byte(CCITT_POLY, c, b);
    }
    assert_eq!(c, 0x29b1);
}

#[test]
fn en13757_check_value() {
    assert_eq!(crc(b"123456789"), 0xc2b7);
    assert_eq!(crc(&[]), 0xffff);
}

#[test]
fn feed_is_little_endian() {
    assert_eq!(feed(0xffff, 0x0403_0201, 4), reference_crc(0x1021, 0xffff, &[1, 2, 3, 4]));
    assert_eq!(feed(0xffff, 0x0403_0201, 2), reference_crc(0x1021, 0xffff, &[1, 2]));
    assert_eq!(feed(0x1234, 0xdead_beef, 0), 0x1234);
}

#[test]
fn totals_default_is_zero() {
    let t = Totals::default();
    assert_eq!(t.version, totals::VERSION);
    assert_eq!((t.litres, t.microlitres, t.reverse_litres, t.measurements, t.missed, t.crc), (0, 0, 0, 0, 0, 0));
}

#[test]
fn totals_checksum_matches_reference() {
    let t = Totals::default();
    assert_eq!(t.checksum(), 0xf26c);
    let t = Totals { version: 1, litres: 1234, microlitres: 567, reverse_litres: 3, measurements: 99, missed: 4, crc: 0 };
    assert_eq!(t.checksum(), reference_crc(0x1021, 0xffff, &totals_bytes(&t)));
}

#[test]
fn add_forward_carries_into_litres() {
    let mut t = Totals::default();
    t.add_forward(999_999);
    assert_eq!((t.litres, t.microlitres), (0, 999_999));
    t.add_forward(2);
    assert_eq!((t.litres, t.microlitres), (1, 1));
    t.add_forward(3_500_000);
    assert_eq!((t.litres, t.microlitres), (4, 500_001));
}

#[test]
fn add_forward_conserves_volume() {
    let mut t = Totals { litres: 10, microlitres: 400_000, ..Totals::default() };
    let before = t.litres as u64 * 1_000_000 + t.microlitres as u64;
    t.add_forward(123_456_789);
    assert_eq!(t.litres as u64 * 1_000_000 + t.microlitres as u64, before + 123_456_789);
}

#[test]
fn add_forward_saturates_litres() {
    let mut t = Totals { litres: u32::MAX - 1, microlitres: 0, ..Totals::default() };
    t.add_forward(5_000_000);
    assert_eq!(t.litres, u32::MAX);
    assert_eq!(t.microlitres, 0);
}

#[test]
fn add_reverse_counts_whole_litres() {
    let mut t = Totals::default();
    t.add_reverse(999_999);
    assert_eq!(t.reverse_litres, 0);
    t.add_reverse(2_500_000);
    assert_eq!(t.reverse_litres, 2);
    assert_eq!(t.microlitres, 0);
    let mut t = Totals { reverse_litres: u32::MAX, ..Totals::default() };
    t.add_reverse(4_000_000);
    assert_eq!(t.reverse_litres, u32::MAX);
}

#[test]
fn totals_store_then_load() {
    let mut t = Totals { litres: 42, microlitres: 7, measurements: 3, ..Totals::default() };
    totals::store(&mut t);
    assert!(totals::valid(&t));
    assert_eq!(t.crc, reference_crc(0x1021, 0xffff, &totals_bytes(&t)));
    let garbage = Totals { version: 9, ..t };
    assert_eq!(totals::load(&t, &garbage), t);
    assert_eq!(totals::load(&t, &t), t);
}

#[test]
fn totals_load_falls_back() {
    let mut previous = Totals { litres: 5, ..Totals::default() };
    totals::store(&mut previous);
    let mut next = Totals { litres: 6, ..Totals::default() };
    totals::store(&mut next);
    let mut torn = next;
    torn.litres = 0xdead;
    assert!(!totals::valid(&torn));
    // The primary is written first: a write torn there leaves the shadow holding the previous
    // good reading.
    assert_eq!(totals::write_order(), [Slot::Primary, Slot::Shadow]);
    assert_eq!(totals::load(&torn, &previous), previous);
    // Torn while the shadow was written: the primary already holds the new one.
    assert_eq!(totals::load(&next, &torn), next);
    // Neither intact: start counting from zero.
    assert_eq!(totals::load(&torn, &torn), Totals::default());
}

/// Write `value` to the pair in `order`, losing the power during write number `cut`.
fn write_pair(pair: &mut (Totals, Totals), order: [Slot; 2], value: Totals, cut: Option<usize>, torn: Totals) {
    for (i, slot) in order.into_iter().enumerate() {
        let v = if cut == Some(i) { torn } else { value };
        match slot {
            Slot::Primary => pair.0 = v,
            Slot::Shadow => pair.1 = v,
        }
        if cut == Some(i) {
            return;
        }
    }
}

#[test]
fn totals_power_cut_costs_at_most_newer() {
    let mut t1 = Totals { litres: 100, microlitres: 5, ..Totals::default() };
    totals::store(&mut t1);
    let mut pair = (Totals::default(), Totals::default());
    write_pair(&mut pair, totals::write_order(), t1, None, t1);
    assert_eq!(totals::load(&pair.0, &pair.1), t1);

    let mut t2 = Totals { litres: 101, microlitres: 9, ..Totals::default() };
    totals::store(&mut t2);
    let torn = Totals { crc: t2.crc ^ 1, ..t2 };
    // Cut during the primary's write: the previous reading comes back.
    let mut during_primary = pair;
    write_pair(&mut during_primary, totals::write_order(), t2, Some(0), torn);
    assert_eq!(totals::load(&during_primary.0, &during_primary.1), t1);
    // Cut during the shadow's write: the new one does.
    let mut during_shadow = pair;
    write_pair(&mut during_shadow, totals::write_order(), t2, Some(1), torn);
    assert_eq!(totals::load(&during_shadow.0, &during_shadow.1), t2);
}

#[test]
fn write_orders_and_addresses() {
    assert_eq!(params::write_order(), [Slot::Shadow, Slot::Primary]);
    assert_eq!(fram::totals_address(Slot::Primary), fram::TOTALS);
    assert_eq!(fram::totals_address(Slot::Shadow), fram::TOTALS_SHADOW);
    assert_eq!(fram::params_address(Slot::Primary), fram::PARAMS);
    assert_eq!(fram::params_address(Slot::Shadow), fram::PARAMS_SHADOW);
}

#[test]
fn params_default_is_nominal() {
    let p = Params::default();
    assert_eq!(p.version, params::VERSION);
    assert_eq!((p.path_um, p.axial_um, p.bore_area_mm2_100), (50_000, 35_400, 31_400));
    assert_eq!((p.excitation_hz, p.burst_threshold, p.seal, p.writes), (1_000_000, 400, 0, 0));
    assert!(!p.is_calibrated());
}

#[test]
fn params_geometry() {
    let p = Params::default();
    assert_eq!(p.geometry_um(), 35_310);
    assert_eq!(Params { axial_um: 0, ..p }.geometry_um(), 0);
    let big = Params { path_um: u32::MAX, axial_um: 1, ..p };
    assert_eq!(big.geometry_um(), ((u32::MAX as u64 * u32::MAX as u64) / 2) as u32);
}

#[test]
fn params_checksum_matches_reference() {
    let p = Params { serial: 77, calibration_ppm: -4000, zero_offset_ps: -12, burst_threshold: -3, ..Params::default() };
    assert_eq!(p.checksum(), reference_crc(0x1021, 0xffff, &params_bytes(&p)));
}

#[test]
fn params_store_counts_and_reads_back() {
    let current = Params::default();
    let new = Params { serial: 1234, version: 7, writes: 900, ..current };
    let out = params::store(&current, &new).unwrap();
    assert_eq!(out.writes, 1);
    assert_eq!(out.version, params::VERSION);
    assert_eq!(out.serial, 1234);
    assert!(params::valid(&out));
    assert_eq!(params::load(&out, &Params::default()), out);
    let again = params::store(&out, &Params { serial: 5, ..out }).unwrap();
    assert_eq!(again.writes, 2);
}

#[test]
fn params_store_refuses_sealed() {
    let current = Params { seal: SEALED, ..Params::default() };
    assert_eq!(params::store(&current, &Params::default()), Err(WriteError::Sealed));
}

#[test]
fn params_store_refuses_exhausted_counter() {
    let current = Params { writes: u16::MAX, ..Params::default() };
    assert_eq!(params::store(&current, &Params::default()), Err(WriteError::CounterExhausted));
}

#[test]
fn params_sealing_is_final() {
    let current = Params::default();
    let sealed = params::store(&current, &Params { seal: SEALED, ..current }).unwrap();
    let loaded = params::load(&sealed, &current);
    assert!(loaded.is_calibrated());
    assert_eq!(params::store(&loaded, &Params::default()), Err(WriteError::Sealed));
}

#[test]
fn params_load_falls_back() {
    let stored = params::store(&Params::default(), &Params { serial: 9, ..Params::default() }).unwrap();
    let bad = Params { crc: stored.crc ^ 1, ..stored };
    assert_eq!(params::load(&bad, &stored), stored);
    assert_eq!(params::load(&bad, &bad), Params::default());
}

#[test]
fn flow_forward_and_backward() {
    let p = Params::default();
    assert!(computable(&p, 1000, 33_000, 33_000));
    assert_eq!(
        compute(&p, 1000, 33_000, 33_000),
        Some(Flow { velocity_um_s: 32_424, rate_ul_s: 10_181, moving: true })
    );
    assert_eq!(
        compute(&p, -1000, 33_000, 33_000),
        Some(Flow { velocity_um_s: -32_424, rate_ul_s: -10_181, moving: true })
    );
}

#[test]
fn flow_reversed_mirrors() {
    let p = Params { calibration_ppm: 4_000, ..Params::default() };
    for (d, up, down) in [(1000, 33_000, 33_000), (257, 40_000, 41_000), (90, 33_000, 33_000), (7, 0, 5)] {
        let forth = compute(&p, d, up, down);
        let back = compute(&p, -d, up, down);
        assert_eq!(
            back,
            forth.map(|f| Flow { velocity_um_s: -f.velocity_um_s, rate_ul_s: -f.rate_ul_s, moving: f.moving })
        );
    }
}

#[test]
fn flow_below_cutoff_is_still() {
    let p = Params::default();
    assert_eq!(
        compute(&p, 100, 33_000, 33_000),
        Some(Flow { velocity_um_s: 3_242, rate_ul_s: 0, moving: false })
    );
}

#[test]
fn flow_zero_offset_reads_still() {
    let p = Params { zero_offset_ps: 250, ..Params::default() };
    assert_eq!(
        compute(&p, 250, 40_000, 41_000),
        Some(Flow { velocity_um_s: 0, rate_ul_s: 0, moving: false })
    );
}

#[test]
fn flow_calibration_correction() {
    let p = Params { calibration_ppm: 4000, ..Params::default() };
    assert_eq!(compute(&p, 1000, 33_000, 33_000).unwrap().rate_ul_s, 10_221);
}

#[test]
fn flow_zero_flight_time_is_none() {
    let p = Params::default();
    assert_eq!(compute(&p, 1000, 0, 33_000), None);
    assert_eq!(compute(&p, 1000, 33_000, 0), None);
}

#[test]
fn flow_out_of_range_detected() {
    let p = Params::default();
    assert!(!computable(&p, i32::MIN, 1, 1));
    assert!(!computable(&p, i32::MAX, 1, 1));
    let offset = Params { zero_offset_ps: 1, ..p };
    assert!(!computable(&offset, i32::MIN, 1, 1));
    assert!(!computable(&p, 1, u32::MAX, u32::MAX));
}

#[test]
fn volume_saturates() {
    assert_eq!(volume_ul(10_181, 2), 20_362);
    assert_eq!(volume_ul(-10_181, 30), -305_430);
    assert_eq!(volume_ul(i32::MAX, 2), i32::MAX);
    assert_eq!(volume_ul(i32::MIN, 2), i32::MIN);
    assert_eq!(volume_ul(5, 0), 0);
}

#[test]
fn image_extent() {
    assert_eq!(image_end(0x8000, 0x1c00, 0x1c40), 0x8040);
    assert_eq!(image_len(0x4400, 0x7000, 0x1c00, 0x1c40), 0x7040 - 0x4400);
    assert_eq!(SOFTWARE_VERSION, "1.0");
}

#[test]
fn fram_layout() {
    assert_eq!(fram::TOTALS, 0x6000);
    assert_eq!(fram::PARAMS, 0x6040);
    assert_eq!(fram::TOTALS_SHADOW, 0x6080);
    assert_eq!(fram::PARAMS_SHADOW, 0x60c0);
    assert!(fram::PARAMS_SHADOW + fram::SLOT <= fram::BASE + fram::LEN);
}
