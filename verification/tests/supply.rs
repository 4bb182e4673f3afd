use uflowmeter::supply::{health, temperature_c10, Health};

#[test]
fn temperature_from_millivolts() {
    // About 690 mV at 30 °C, the voltage falling about 1.7 mV per degree.
    assert_eq!(temperature_c10(690), 300);
    assert_eq!(temperature_c10(707), 200);
    assert_eq!(temperature_c10(673), 400);
    assert_eq!(temperature_c10(656), 500);
    assert_eq!(temperature_c10(640), 594);
    assert_eq!(temperature_c10(700), 242);
    assert_eq!(temperature_c10(0), (300 + 6_900_000 / 1700) as i16);
}

#[test]
fn health_from_conversions() {
    assert_eq!(health(Some(1_700), Some(690)), Health { supply_mv: 3_400, temperature_c10: 300, battery_low: false });
    assert_eq!(health(Some(1_500), Some(690)), Health { supply_mv: 3_000, temperature_c10: 300, battery_low: true });
    assert_eq!(health(Some(1_600), Some(690)).battery_low, false);
    assert_eq!(health(Some(40_000), None).supply_mv, u16::MAX);
    assert_eq!(health(None, None), Health { supply_mv: 0, temperature_c10: temperature_c10(0), battery_low: true });
    assert_eq!(Health::default(), Health { supply_mv: 0, temperature_c10: 0, battery_low: false });
}
