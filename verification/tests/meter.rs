use embassy_time::Duration;
use uflowmeter::legal::params::{Params, SEALED};
use uflowmeter::legal::totals::{self, Totals};
use uflowmeter::meter::{backoff_seconds, Capture, Cycle, Meter, Outcome};
use uflowmeter::supply::Health;

fn sealed() -> Params {
    Params { seal: SEALED, ..Params::default() }
}

const FORWARD: Capture = Capture::Echo { delta_t_ps: 1000, t_up_ns: 33_000, t_down_ns: 33_000 };
const BACKWARD: Capture = Capture::Echo { delta_t_ps: -1000, t_up_ns: 33_000, t_down_ns: 33_000 };
const STILL: Capture = Capture::Echo { delta_t_ps: 0, t_up_ns: 33_000, t_down_ns: 33_000 };

#[test]
fn new_meter_starts_fast() {
    let m = Meter::new(sealed(), Totals::default());
    assert_eq!(m.interval_seconds(), 2);
    assert_eq!(m.interval(), Duration::from_secs(2));
    assert_eq!(m.health, Health::default());
    assert_eq!(m.totals, Totals::default());
}

#[test]
fn flowing_measurement_adds_volume() {
    let mut m = Meter::new(sealed(), Totals::default());
    let c = m.measure(FORWARD);
    assert_eq!(c, Cycle { outcome: Outcome::Flowing(10_181), store: true, housekeeping: false });
    assert_eq!(m.totals.microlitres, 20_362);
    assert_eq!(m.totals.litres, 0);
    assert_eq!(m.totals.measurements, 1);
    assert!(totals::valid(&m.totals));
}

#[test]
fn backward_flow_counted_separately() {
    let mut m = Meter::new(sealed(), Totals::default());
    let c = m.measure(BACKWARD);
    assert_eq!(c.outcome, Outcome::Flowing(-10_181));
    assert_eq!(m.totals.microlitres, 0);
    assert_eq!(m.totals.reverse_litres, 0);
    assert_eq!(m.still, 0);
}

#[test]
fn slows_after_eight_still_and_recovers_on_flow() {
    let mut m = Meter::new(sealed(), Totals::default());
    for k in 0..7 {
        assert_eq!(m.measure(STILL).outcome, Outcome::Still);
        assert_eq!(m.interval_seconds(), 2, "after {} still", k + 1);
    }
    assert_eq!(m.measure(Capture::NoEcho).outcome, Outcome::NoEcho);
    assert_eq!(m.interval_seconds(), 30);
    assert_eq!(m.interval(), Duration::from_secs(30));
    // The volume of the next one covers the thirty seconds just elapsed.
    assert_eq!(m.measure(FORWARD).outcome, Outcome::Flowing(10_181));
    assert_eq!(m.totals.microlitres, 305_430);
    assert_eq!(m.interval_seconds(), 2);
}

#[test]
fn restart_failure_changes_nothing() {
    let mut m = Meter::new(sealed(), Totals::default());
    let c = m.measure(Capture::RestartFailed);
    assert_eq!(c, Cycle { outcome: Outcome::FrontEndFailed, store: false, housekeeping: false });
    assert_eq!(m.totals, Totals::default());
}

#[test]
fn capture_failure_is_counted() {
    let mut m = Meter::new(sealed(), Totals::default());
    let c = m.measure(Capture::CaptureFailed);
    assert_eq!(c, Cycle { outcome: Outcome::FrontEndFailed, store: true, housekeeping: false });
    assert_eq!(m.totals.measurements, 1);
    assert_eq!(m.totals.missed, 0);
    assert_eq!(m.still, 0);
}

#[test]
fn no_echo_is_missed() {
    let mut m = Meter::new(sealed(), Totals::default());
    assert_eq!(m.measure(Capture::NoEcho).outcome, Outcome::NoEcho);
    let zero_time = Capture::Echo { delta_t_ps: 5, t_up_ns: 0, t_down_ns: 10 };
    assert_eq!(m.measure(zero_time).outcome, Outcome::NoEcho);
    assert_eq!(m.totals.missed, 2);
    assert_eq!(m.totals.measurements, 2);
    assert_eq!(m.still, 2);
}

#[test]
fn uncalibrated_still_counts_but_says_so() {
    let mut m = Meter::new(Params::default(), Totals::default());
    let c = m.measure(FORWARD);
    assert_eq!(c.outcome, Outcome::NotCalibrated);
    assert_eq!(m.totals.microlitres, 20_362);
}

#[test]
fn housekeeping_every_128() {
    let mut m = Meter::new(sealed(), Totals::default());
    for _ in 0..127 {
        assert!(!m.measure(STILL).housekeeping);
    }
    assert!(m.measure(STILL).housekeeping);
    assert_eq!(m.since_housekeeping, 0);
    assert!(!m.measure(STILL).housekeeping);
}

#[test]
fn backoff_only_after_front_end_failure() {
    assert_eq!(backoff_seconds(Outcome::FrontEndFailed), 30);
    assert_eq!(backoff_seconds(Outcome::Flowing(5)), 0);
    assert_eq!(backoff_seconds(Outcome::Still), 0);
    assert_eq!(backoff_seconds(Outcome::NoEcho), 0);
    assert_eq!(backoff_seconds(Outcome::NotCalibrated), 0);
}

#[test]
fn failures_do_not_count_toward_idle() {
    let mut m = Meter::new(sealed(), Totals::default());
    for _ in 0..7 {
        m.measure(STILL);
    }
    m.measure(Capture::RestartFailed);
    m.measure(Capture::CaptureFailed);
    assert_eq!(m.interval_seconds(), 2);
    m.measure(Capture::NoEcho);
    assert_eq!(m.interval_seconds(), 30);
    m.measure(BACKWARD);
    assert_eq!(m.interval_seconds(), 2);
}
