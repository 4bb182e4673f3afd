//! The measurement cycle.
//!
//! Ping both ways, work out the flow, add it to the reading, switch the front end off, sleep. The
//! front end and the sleeping are driven from outside; what is decided here is what each
//! measurement comes to and how long to wait for the next.
//!
//! # The adaptive interval
//!
//! A meter on a pipe where nothing is flowing learns nothing by asking often, and the asking is
//! what costs. So after [`IDLE_MEASUREMENTS`] consecutive still readings the interval stretches
//! from [`INTERVAL_FLOWING_S`] to [`INTERVAL_IDLE_S`], and the first measurement that finds water
//! moving pulls it straight back.

use vstd::prelude::*;
use embassy_time::Duration;
use crate::config::{HOUSEKEEPING_EVERY, IDLE_MEASUREMENTS, INTERVAL_FLOWING_S, INTERVAL_IDLE_S};
use crate::legal::flow::{self, flow, in_range, volume};
use crate::legal::params::{sealed, Params};
use crate::legal::totals::{self, added_forward, added_reverse, stamped, Totals, UL_PER_LITRE};
use crate::supply::{self, Health};

verus! {

/// `embassy_time::Duration`, carried through as it is: nothing here looks inside one.
#[verifier::external_type_specification]
#[verifier::external_body]
pub struct ExDuration(Duration);

/// What `embassy_time::Duration::from_secs` gives for `secs` seconds: that many seconds' worth of
/// the time driver's ticks.
pub uninterp spec fn duration_of_secs(secs: u64) -> Duration;

/// `Duration::from_secs`. Its source multiplies `secs` by the tick rate, which is at most
/// 5 242 880 000 among the rates the crate offers, so the bound keeps the product in a `u64`; the
/// result is named rather than described, since what a tick is depends on how the crate was
/// configured.
#[verifier::external_body]
fn duration_from_secs(secs: u64) -> (d: Duration)
    requires
        secs <= 3_518_437_208,
    ensures
        d == duration_of_secs(secs),
{
    Duration::from_secs(secs)
}

/// What one cycle came to, for whoever is reporting.
#[derive(Copy, Clone, Debug, PartialEq, Eq, Structural)]
pub enum Outcome {
    /// Water is moving, at this many microlitres per second.
    Flowing(i32),
    /// Everything worked and nothing is moving.
    Still,
    /// No echo was found. Air in the pipe, or a transducer going deaf.
    NoEcho,
    /// The front end itself failed.
    FrontEndFailed,
    /// The instrument has not been calibrated and sealed, so nothing it measures may be billed
    /// from. It still counts, so that a bench instrument is useful, but the reading is marked.
    NotCalibrated,
}

/// What the front end delivered for one measurement.
#[derive(Copy, Clone, Debug, PartialEq, Eq, Structural)]
pub enum Capture {
    /// The front end would not come back up.
    RestartFailed,
    /// It came up, but the capture of the pair failed.
    CaptureFailed,
    /// The pair was captured, but no burst was found in it.
    NoEcho,
    /// The difference in flight time from the correlation, and the two coarse flight times.
    Echo { delta_t_ps: i32, t_up_ns: u32, t_down_ns: u32 },
}

/// What a cycle leaves to be done.
#[derive(Copy, Clone, Debug, PartialEq, Eq, Structural)]
pub struct Cycle {
    /// What the measurement came to.
    pub outcome: Outcome,
    /// Whether the reading is to be written down, to both copies in [`totals::write_order`].
    pub store: bool,
    /// Whether the battery and temperature are due a check.
    pub housekeeping: bool,
}

/// Seconds to hold off, beyond the usual interval, after a cycle that came to `outcome`: a front
/// end that will not start is worth slowing down for, since retrying at the fast interval spends
/// the battery on a fault that needs a person.
pub fn backoff_seconds(outcome: Outcome) -> (r: u64)
    ensures
        r == (if outcome is FrontEndFailed { INTERVAL_IDLE_S } else { 0 }),
{
    match outcome {
        Outcome::FrontEndFailed => INTERVAL_IDLE_S,
        _ => 0,
    }
}

/// The interval the meter is on with `still` consecutive still measurements behind it.
pub open spec fn interval_for(still: u8) -> u64 {
    if still >= IDLE_MEASUREMENTS {
        INTERVAL_IDLE_S
    } else {
        INTERVAL_FLOWING_S
    }
}

/// One more still measurement, counted without wrapping.
pub open spec fn one_more(still: u8) -> u8 {
    if still == u8::MAX {
        u8::MAX
    } else {
        (still + 1) as u8
    }
}

/// The measurement proper: what it does to the reading and the still count, and what it comes to.
pub open spec fn measured(totals: Totals, params: Params, still: u8, seconds: u32, capture: Capture) -> (
    Totals,
    u8,
    Outcome,
) {
    match capture {
        Capture::Echo { delta_t_ps, t_up_ns, t_down_ns } => match flow(
            params,
            delta_t_ps,
            t_up_ns,
            t_down_ns,
        ) {
            None => (totals, one_more(still), Outcome::NoEcho),
            Some(f) => if !f.moving {
                (totals, one_more(still), Outcome::Still)
            } else {
                let v = volume(f.rate_ul_s, seconds);
                (
                    if v >= 0 {
                        added_forward(totals, v as u32)
                    } else {
                        added_reverse(totals, (-v) as u32)
                    },
                    0,
                    Outcome::Flowing(f.rate_ul_s),
                )
            },
        },
        Capture::NoEcho => (totals, one_more(still), Outcome::NoEcho),
        _ => (totals, still, Outcome::FrontEndFailed),
    }
}

/// `n` held at the top of a `u32` after adding one.
pub open spec fn inc(n: u32) -> u32 {
    if n == u32::MAX {
        u32::MAX
    } else {
        (n + 1) as u32
    }
}

/// The reading with a measurement counted, and a missed one if no echo was found.
pub open spec fn counted(t: Totals, outcome: Outcome) -> Totals {
    Totals {
        measurements: inc(t.measurements),
        missed: if outcome == Outcome::NoEcho {
            inc(t.missed)
        } else {
            t.missed
        },
        ..t
    }
}

/// Whether a capture is one the flow arithmetic can take. See [`in_range`].
pub open spec fn capture_in_range(params: Params, capture: Capture) -> bool {
    match capture {
        Capture::Echo { delta_t_ps, t_up_ns, t_down_ns } => in_range(
            params,
            delta_t_ps,
            t_up_ns,
            t_down_ns,
        ),
        _ => true,
    }
}

/// A whole cycle, from the state before it: the reading, the still count and the housekeeping
/// count after it, and what it leaves to be done.
pub open spec fn cycled(totals: Totals, params: Params, still: u8, since: u16, capture: Capture) -> (
    Totals,
    u8,
    u16,
    Cycle,
) {
    if capture == Capture::RestartFailed {
        (totals, still, since, Cycle { outcome: Outcome::FrontEndFailed, store: false, housekeeping: false })
    } else {
        let (t, next_still, outcome) = measured(
            totals,
            params,
            still,
            interval_for(still) as u32,
            capture,
        );
        let due = since + 1 >= HOUSEKEEPING_EVERY;
        (
            stamped(counted(t, outcome)),
            next_still,
            if due {
                0
            } else {
                (since + 1) as u16
            },
            Cycle {
                outcome: if sealed(params) {
                    outcome
                } else {
                    Outcome::NotCalibrated
                },
                store: true,
                housekeeping: due,
            },
        )
    }
}

/// Everything one measurement cycle decides about.
pub struct Meter {
    /// The reading.
    pub totals: Totals,
    /// What this particular instrument was calibrated to. They cannot change while it is
    /// running, because the only path that writes them refuses a sealed instrument.
    pub params: Params,
    /// The last thing the monitor said.
    pub health: Health,
    /// Consecutive measurements that found no movement.
    pub still: u8,
    /// Measurements since the last housekeeping check.
    pub since_housekeeping: u16,
}

impl Meter {
    /// What a meter between measurements holds: a reading whose microlitres are under a litre, as
    /// the reading always keeps them, and a housekeeping count short of its period.
    pub open spec fn wf(&self) -> bool {
        &&& self.totals.microlitres < UL_PER_LITRE
        &&& self.since_housekeeping < HOUSEKEEPING_EVERY
    }

    /// A meter around the instrument's parameters and the reading found in FRAM, on the fast
    /// interval, with nothing yet known about its own health.
    pub fn new(params: Params, totals: Totals) -> (r: Meter)
        requires
            totals.microlitres < UL_PER_LITRE,
        ensures
            r.wf(),
            r.totals == totals,
            r.params == params,
            r.health == supply::unknown(),
            r.still == 0,
            r.since_housekeeping == 0,
    {
        Meter { totals, params, health: Health::default(), still: 0, since_housekeeping: 0 }
    }

    /// How many seconds the current interval is, which is also what the volume of the next
    /// measurement is integrated over.
    pub fn interval_seconds(&self) -> (r: u32)
        ensures
            r == interval_for(self.still),
    {
        if self.still >= IDLE_MEASUREMENTS {
            INTERVAL_IDLE_S as u32
        } else {
            INTERVAL_FLOWING_S as u32
        }
    }

    /// How long to wait before the next measurement.
    pub fn interval(&self) -> (r: Duration)
        ensures
            r == duration_of_secs(interval_for(self.still)),
    {
        if self.still >= IDLE_MEASUREMENTS {
            duration_from_secs(INTERVAL_IDLE_S)
        } else {
            duration_from_secs(INTERVAL_FLOWING_S)
        }
    }

    /// The measurement proper, with the front end up and the capture in hand.
    fn measure_once(&mut self, seconds: u32, capture: Capture) -> (r: Outcome)
        requires
            old(self).totals.microlitres < UL_PER_LITRE,
            capture_in_range(old(self).params, capture),
        ensures
            (final(self).totals, final(self).still, r) == measured(
                old(self).totals,
                old(self).params,
                old(self).still,
                seconds,
                capture,
            ),
            final(self).params == old(self).params,
            final(self).health == old(self).health,
            final(self).since_housekeeping == old(self).since_housekeeping,
            final(self).totals.microlitres < UL_PER_LITRE,
    {
        let (delta_t_ps, t_up_ns, t_down_ns) = match capture {
            Capture::Echo { delta_t_ps, t_up_ns, t_down_ns } => (delta_t_ps, t_up_ns, t_down_ns),
            Capture::NoEcho => {
                self.still = self.still.saturating_add(1);
                return Outcome::NoEcho;
            },
            _ => return Outcome::FrontEndFailed,
        };

        let f: flow::Flow = match flow::compute(&self.params, delta_t_ps, t_up_ns, t_down_ns) {
            Some(f) => f,
            None => {
                self.still = self.still.saturating_add(1);
                return Outcome::NoEcho;
            },
        };

        if !f.moving {
            self.still = self.still.saturating_add(1);
            return Outcome::Still;
        }
        self.still = 0;

        let volume: i32 = flow::volume_ul(f.rate_ul_s, seconds);
        if volume >= 0 {
            self.totals.add_forward(volume as u32);
        } else {
            self.totals.add_reverse((-(volume as i64)) as u32);
        }
        Outcome::Flowing(f.rate_ul_s)
    }

    /// Fold one measurement into the reading, given what the front end delivered.
    ///
    /// The volume covers the interval that has just elapsed, which is the one the meter was on
    /// before this measurement changes it. A front end that would not come back up is reported
    /// and nothing else happens; otherwise the measurement is counted, the reading is stamped to
    /// be written down, and every [`HOUSEKEEPING_EVERY`]th cycle asks for the battery and the
    /// temperature to be checked. An instrument that is not sealed still counts, but every outcome
    /// says so.
    pub fn measure(&mut self, capture: Capture) -> (r: Cycle)
        requires
            old(self).wf(),
            capture_in_range(old(self).params, capture),
        ensures
            final(self).wf(),
            final(self).params == old(self).params,
            final(self).health == old(self).health,
            (final(self).totals, final(self).still, final(self).since_housekeeping, r) == cycled(
                old(self).totals,
                old(self).params,
                old(self).still,
                old(self).since_housekeeping,
                capture,
            ),
    {
        let uncalibrated: bool = !self.params.is_calibrated();
        let seconds: u32 = self.interval_seconds();

        if capture == Capture::RestartFailed {
            return Cycle { outcome: Outcome::FrontEndFailed, store: false, housekeeping: false };
        }

        let outcome: Outcome = self.measure_once(seconds, capture);

        self.totals.measurements = self.totals.measurements.saturating_add(1);
        if outcome == Outcome::NoEcho {
            self.totals.missed = self.totals.missed.saturating_add(1);
        }
        totals::store(&mut self.totals);

        self.since_housekeeping = self.since_housekeeping + 1;
        let housekeeping: bool = self.since_housekeeping >= HOUSEKEEPING_EVERY;
        if housekeeping {
            self.since_housekeeping = 0;
        }

        Cycle {
            outcome: if uncalibrated {
                Outcome::NotCalibrated
            } else {
                outcome
            },
            store: true,
            housekeeping,
        }
    }
}

/// The first measurement that finds water moving puts the meter straight back on the fast
/// interval, however long it had been idle.
pub proof fn lemma_movement_restores_fast_interval(
    totals: Totals,
    params: Params,
    still: u8,
    seconds: u32,
    capture: Capture,
)
    requires
        (measured(totals, params, still, seconds, capture).2 is Flowing),
    ensures
        interval_for(measured(totals, params, still, seconds, capture).1) == INTERVAL_FLOWING_S,
{
}

/// Every measurement that finds no movement — still water or no echo — adds one to the still
/// count, which never wraps.
pub proof fn lemma_no_movement_counts_toward_idle(
    totals: Totals,
    params: Params,
    still: u8,
    seconds: u32,
    capture: Capture,
)
    requires
        (measured(totals, params, still, seconds, capture).2 == Outcome::Still
            || measured(totals, params, still, seconds, capture).2 == Outcome::NoEcho),
    ensures
        measured(totals, params, still, seconds, capture).1 == one_more(still),
        measured(totals, params, still, seconds, capture).1 >= still,
{
}

/// `n` still measurements in a row, starting from a count of `still`.
pub open spec fn after_still_run(still: u8, n: nat) -> u8
    decreases n,
{
    if n == 0 {
        still
    } else {
        one_more(after_still_run(still, (n - 1) as nat))
    }
}

/// After [`IDLE_MEASUREMENTS`] consecutive measurements without movement the meter is on the slow
/// interval, whatever the count was before; before that many, from a fresh count, it is not.
pub proof fn lemma_slows_after_idle_run(still: u8, n: nat)
    ensures
        n >= IDLE_MEASUREMENTS ==> interval_for(after_still_run(still, n)) == INTERVAL_IDLE_S,
        n < IDLE_MEASUREMENTS ==> interval_for(after_still_run(0, n)) == INTERVAL_FLOWING_S,
    decreases n,
{
    lemma_run_counts(still, n);
    lemma_run_counts(0, n);
}

proof fn lemma_run_counts(still: u8, n: nat)
    ensures
        (after_still_run(still, n) == (if still + n > u8::MAX { u8::MAX as int } else { still + n })),
    decreases n,
{
    if n > 0 {
        lemma_run_counts(still, (n - 1) as nat);
    }
}

/// Water held on the forward register, in microlitres.
pub open spec fn forward_ul(t: Totals) -> int {
    t.litres * 1_000_000 + t.microlitres
}

/// Reverse flow is counted apart, never subtracted: a measurement never lowers the forward
/// reading — short of a register already stuck at the top — and never lowers the reverse count.
/// Water found going backwards leaves everything but the reverse count as it was and adds the
/// whole litres of the volume to it, held at the top; water going forwards adds exactly its volume
/// to the forward reading, short of the litres saturating, and leaves the reverse count alone; and
/// a measurement that finds nothing moving leaves the reading as it was.
pub proof fn lemma_reverse_flow_counted_apart(
    totals: Totals,
    params: Params,
    still: u8,
    seconds: u32,
    capture: Capture,
)
    requires
        totals.microlitres < UL_PER_LITRE,
    ensures
        ({
            let (after, _, outcome) = measured(totals, params, still, seconds, capture);
            &&& totals.litres < u32::MAX ==> forward_ul(after) >= forward_ul(totals)
            &&& after.reverse_litres >= totals.reverse_litres
            &&& after.version == totals.version && after.measurements == totals.measurements
                && after.missed == totals.missed && after.crc == totals.crc
            &&& outcome matches Outcome::Flowing(rate) ==> volume(rate, seconds) < 0 ==> {
                let back: int = -volume(rate, seconds);
                &&& after.litres == totals.litres
                &&& after.microlitres == totals.microlitres
                &&& if totals.reverse_litres + back / 1_000_000 <= u32::MAX {
                    after.reverse_litres == totals.reverse_litres + back / 1_000_000
                } else {
                    after.reverse_litres == u32::MAX
                }
            }
            &&& outcome matches Outcome::Flowing(rate) ==> volume(rate, seconds) >= 0 ==> {
                &&& after.reverse_litres == totals.reverse_litres
                &&& after.microlitres < UL_PER_LITRE
                &&& after.litres < u32::MAX ==> forward_ul(after) == forward_ul(totals) + volume(
                    rate,
                    seconds,
                )
            }
            &&& !(outcome is Flowing) ==> after == totals
        }),
{
    let (after, _, outcome) = measured(totals, params, still, seconds, capture);
    if let Outcome::Flowing(rate) = outcome {
        let v = volume(rate, seconds);
        if v >= 0 {
            let sum: int = totals.microlitres + v;
            vstd::arithmetic::div_mod::lemma_fundamental_div_mod(sum, 1_000_000);
            vstd::arithmetic::div_mod::lemma_mod_pos_bound(sum, 1_000_000);
            assert(after == added_forward(totals, v as u32));
            if after.litres < u32::MAX {
                assert(after.litres == totals.litres + sum / 1_000_000);
                assert(forward_ul(after) == totals.litres * 1_000_000 + (sum / 1_000_000) * 1_000_000
                    + sum % 1_000_000) by (nonlinear_arith)
                    requires
                        after.litres == totals.litres + sum / 1_000_000,
                        after.microlitres == sum % 1_000_000,
                        forward_ul(after) == after.litres * 1_000_000 + after.microlitres,
                ;
            } else if totals.litres < u32::MAX {
                assert(forward_ul(after) >= (u32::MAX as int) * 1_000_000);
                assert(forward_ul(totals) < (u32::MAX as int) * 1_000_000) by (nonlinear_arith)
                    requires
                        totals.litres < u32::MAX,
                        totals.microlitres < 1_000_000,
                        forward_ul(totals) == totals.litres * 1_000_000 + totals.microlitres,
                ;
            }
        }
    }
}

/// The same of a whole cycle: counting the measurement and stamping the checksum touch neither
/// register, so what [`lemma_reverse_flow_counted_apart`] says of the measurement holds of the
/// cycle — and a front end that would not start leaves the reading entirely alone.
pub proof fn lemma_cycle_never_lowers_forward(
    totals: Totals,
    params: Params,
    still: u8,
    since: u16,
    capture: Capture,
)
    requires
        totals.microlitres < UL_PER_LITRE,
    ensures
        ({
            let (after, _, _, cycle) = cycled(totals, params, still, since, capture);
            &&& totals.litres < u32::MAX ==> forward_ul(after) >= forward_ul(totals)
            &&& after.reverse_litres >= totals.reverse_litres
            &&& cycle.outcome matches Outcome::Flowing(rate) ==> volume(rate, interval_for(still) as u32)
                < 0 ==> after.litres == totals.litres && after.microlitres == totals.microlitres
        }),
{
    if capture != Capture::RestartFailed {
        lemma_reverse_flow_counted_apart(totals, params, still, interval_for(still) as u32, capture);
    }
}

/// Whether a capture finds water moving: an echo whose flow counts as moving.
pub open spec fn finds_movement(params: Params, capture: Capture) -> bool {
    match capture {
        Capture::Echo { delta_t_ps, t_up_ns, t_down_ns } => match flow(params, delta_t_ps, t_up_ns, t_down_ns) {
            Some(f) => f.moving,
            None => false,
        },
        _ => false,
    }
}

/// Whether a capture finds no movement: still water, or no echo. A front end that failed finds
/// neither.
pub open spec fn finds_no_movement(params: Params, capture: Capture) -> bool {
    match capture {
        Capture::Echo { delta_t_ps, t_up_ns, t_down_ns } => match flow(params, delta_t_ps, t_up_ns, t_down_ns) {
            Some(f) => !f.moving,
            None => true,
        },
        Capture::NoEcho => true,
        _ => false,
    }
}

/// How many measurements have found no movement since the last one that found water moving, or
/// since `start` of them were already behind the meter if none in `captures` did; a front end
/// that failed is not counted either way.
pub open spec fn quiet_run(params: Params, start: nat, captures: Seq<Capture>) -> nat
    decreases captures.len(),
{
    if captures.len() == 0 {
        start
    } else {
        let before = quiet_run(params, start, captures.drop_last());
        if finds_movement(params, captures.last()) {
            0
        } else if finds_no_movement(params, captures.last()) {
            before + 1
        } else {
            before
        }
    }
}

/// The reading, the still count and the housekeeping count after one cycle for each of
/// `captures`, in order, each taken by [`cycled`] from the state the one before left.
pub open spec fn run(totals: Totals, params: Params, still: u8, since: u16, captures: Seq<Capture>) -> (
    Totals,
    u8,
    u16,
)
    decreases captures.len(),
{
    if captures.len() == 0 {
        (totals, still, since)
    } else {
        let (t, s, h) = run(totals, params, still, since, captures.drop_last());
        let (t2, s2, h2, _) = cycled(t, params, s, h, captures.last());
        (t2, s2, h2)
    }
}

/// `n`, held at the top of a `u8`.
pub open spec fn capped(n: nat) -> u8 {
    if n > u8::MAX {
        u8::MAX
    } else {
        n as u8
    }
}

/// The adaptive interval over any run of measurements: the still count is how many measurements
/// in a row have found no movement — since the last one that found water moving, or since the
/// meter started with `still` behind it — held at the top of its register, front-end failures
/// leaving it as it was. So a meter started as [`Meter::new`] starts it, with a count of zero, is
/// on the slow interval exactly when at least [`IDLE_MEASUREMENTS`] measurements since then, or
/// since the last that found movement, found none, and on the fast interval otherwise; the first
/// measurement that finds movement brings it straight back.
pub proof fn lemma_interval_follows_quiet_run(
    totals: Totals,
    params: Params,
    still: u8,
    since: u16,
    captures: Seq<Capture>,
)
    ensures
        run(totals, params, still, since, captures).1 == capped(quiet_run(params, still as nat, captures)),
        interval_for(run(totals, params, still, since, captures).1) == if quiet_run(
            params,
            still as nat,
            captures,
        ) >= IDLE_MEASUREMENTS {
            INTERVAL_IDLE_S
        } else {
            INTERVAL_FLOWING_S
        },
        captures.len() > 0 && finds_movement(params, captures.last()) ==> interval_for(
            run(totals, params, still, since, captures).1,
        ) == INTERVAL_FLOWING_S,
    decreases captures.len(),
{
    if captures.len() > 0 {
        lemma_interval_follows_quiet_run(totals, params, still, since, captures.drop_last());
    }
}

} // verus!
