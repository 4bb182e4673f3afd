use uflowmeter::energy::{budget, capture_us, correlation_us, flowing, idle, years, Budget};

#[test]
fn capture_and_correlation_times() {
    assert_eq!(capture_us(80_000_000, 20, 200), 100);
    assert_eq!(capture_us(3, 1, 1), 666_667);
    assert_eq!(correlation_us(64, 16, 8_000_000), 14_000);
    assert_eq!(correlation_us(1, 0, 3), 50_000_000);
}

#[test]
fn budget_for_the_settings() {
    let b = budget(2);
    assert_eq!(
        b,
        Budget {
            front_end_nc: 4_400,
            correlation_nc: 12_080,
            average_na: 9_740,
            front_end_us: 1_100,
            correlation_us: 14_000,
            display_na: 1_346,
            radio_na: 2_000,
        }
    );
    // 16.5 µC a measurement, most of it the correlation.
    assert_eq!(b.front_end_nc + b.correlation_nc, 16_480);
}

#[test]
fn averages_match_the_published_table() {
    // 9.7 µA while water moves, every two seconds; 2.1 µA while nothing does, every thirty.
    assert!(flowing().average_na.abs_diff(9_700) <= 100);
    assert!(idle().average_na.abs_diff(2_100) <= 100);
    // The display and the radio are priced beside the average, not in it.
    assert_eq!(flowing().display_na, 1_346);
    assert_eq!(flowing().radio_na, 2_000);
    assert_eq!(idle().display_na, flowing().display_na);
}

#[test]
fn idle_costs_less_than_flowing() {
    assert_eq!(flowing(), budget(2));
    assert_eq!(idle(), budget(30));
    assert_eq!(idle().average_na, 2_049);
    assert!(idle().average_na <= flowing().average_na);
    assert!(budget(3600).average_na <= budget(30).average_na);
}

#[test]
fn battery_years() {
    assert_eq!(years(19_000, 0), 0);
    assert_eq!(years(19_000, 2_049), 1_057);
    assert_eq!(years(19_000, 9_740), 222);
    assert!(years(19_000, 9_740) <= years(19_000, 2_049));
}

#[test]
fn doubling_interval_halves_measuring() {
    let floor = 1_500;
    assert_eq!(budget(2).average_na - floor, 8_240);
    assert_eq!(budget(4).average_na - floor, 4_120);
    assert_eq!(budget(60).average_na - floor, (budget(30).average_na - floor) / 2);
}
