//! Turning a difference in flight time into a volume.
//!
//! For a path of length `L` whose axial component is `D`, the mean velocity along the pipe is
//!
//! ```text
//!         L²         Δt
//!  v =  ------  ·  ---------
//!        2 · D      t↑ · t↓
//! ```
//!
//! The speed of sound is not in it: the two flight times carry it and it cancels, so the meter
//! needs no accurate water temperature and no sensor to measure one.
//!
//! Everything here is integers, with the one 64-bit multiply the numerator genuinely needs. Integer
//! division truncates toward zero, as the processor's does.

use vstd::prelude::*;
use super::params::{geometry, Params};
use crate::config::ZERO_CUTOFF_UM_S;

verus! {

/// A measurement, once the arithmetic has been done.
#[derive(Copy, Clone, Debug, PartialEq, Eq, Structural)]
pub struct Flow {
    /// Mean velocity along the pipe, in micrometres per second. Signed: negative is backwards.
    pub velocity_um_s: i32,
    /// Volumetric rate, in cubic millimetres per second — which is microlitres per second.
    pub rate_ul_s: i32,
    /// Whether this counts as water moving at all. See [`ZERO_CUTOFF_UM_S`].
    pub moving: bool,
}

/// `a / b` rounded toward zero, for a positive `b`.
pub open spec fn trunc_div(a: int, b: int) -> int {
    if a >= 0 {
        a / b
    } else {
        -((-a) / b)
    }
}

/// The difference in flight time with the instrument's own asymmetry taken off.
pub open spec fn corrected_delta(p: Params, delta_t_ps: i32) -> int {
    delta_t_ps - p.zero_offset_ps
}

/// `10⁶ · L²/(2D) · Δt`, the numerator of the velocity.
pub open spec fn numerator(p: Params, delta_t_ps: i32) -> int {
    1_000_000 * geometry(p) * corrected_delta(p, delta_t_ps)
}

/// The velocity in micrometres per second, as the `i32` it is kept in.
pub open spec fn velocity(p: Params, delta_t_ps: i32, t_up_ns: u32, t_down_ns: u32) -> i32 {
    trunc_div(numerator(p, delta_t_ps), t_up_ns * t_down_ns) as i32
}

/// Whether a velocity counts as water moving.
pub open spec fn is_moving(v: i32) -> bool {
    v >= ZERO_CUTOFF_UM_S || v <= -ZERO_CUTOFF_UM_S
}

/// The rate before the calibration correction: velocity through the bore, in microlitres per
/// second.
pub open spec fn raw_rate(p: Params, v: i32) -> int {
    trunc_div(v * p.bore_area_mm2_100, 100_000)
}

/// The rate in microlitres per second: the raw rate with the calibration correction applied last,
/// zero when the water is not moving.
pub open spec fn rate(p: Params, v: i32) -> i32 {
    if is_moving(v) {
        (raw_rate(p, v) + trunc_div(raw_rate(p, v) * p.calibration_ppm, 1_000_000)) as i32
    } else {
        0
    }
}

/// The inputs on which the arithmetic stays inside its registers: the corrected delta fits 32
/// bits, the numerator 64, and so does the correction's product.
pub open spec fn in_range(p: Params, delta_t_ps: i32, t_up_ns: u32, t_down_ns: u32) -> bool {
    t_up_ns == 0 || t_down_ns == 0 || {
        &&& t_up_ns * t_down_ns <= i64::MAX
        &&& i32::MIN <= corrected_delta(p, delta_t_ps) <= i32::MAX
        &&& i64::MIN <= numerator(p, delta_t_ps) <= i64::MAX
        &&& is_moving(velocity(p, delta_t_ps, t_up_ns, t_down_ns)) ==> i64::MIN <= raw_rate(
            p,
            velocity(p, delta_t_ps, t_up_ns, t_down_ns),
        ) * p.calibration_ppm <= i64::MAX
    }
}

/// What [`compute`] gives for these inputs.
pub open spec fn flow(p: Params, delta_t_ps: i32, t_up_ns: u32, t_down_ns: u32) -> Option<Flow> {
    if t_up_ns == 0 || t_down_ns == 0 {
        None
    } else {
        let v = velocity(p, delta_t_ps, t_up_ns, t_down_ns);
        Some(Flow { velocity_um_s: v, rate_ul_s: rate(p, v), moving: is_moving(v) })
    }
}

/// `rate · seconds`, held inside an `i32`.
pub open spec fn volume(rate_ul_s: i32, seconds: u32) -> i32 {
    let product = rate_ul_s * (seconds as i32);
    if product > i32::MAX {
        i32::MAX
    } else if product < i32::MIN {
        i32::MIN
    } else {
        product as i32
    }
}

/// `a / b` rounded toward zero, for a positive `b`.
fn div_toward_zero(a: i64, b: i64) -> (r: i64)
    requires
        b > 0,
    ensures
        r == trunc_div(a as int, b as int),
{
    match a.checked_div(b) {
        Some(q) => q,
        None => 0,
    }
}

/// Whether [`compute`] can work these inputs out without leaving its registers.
///
/// The measurement comes from the front end, so this is what stands between a wild capture and
/// arithmetic that would overflow.
pub fn computable(params: &Params, delta_t_ps: i32, t_up_ns: u32, t_down_ns: u32) -> (r: bool)
    ensures
        r == in_range(*params, delta_t_ps, t_up_ns, t_down_ns),
{
    if t_up_ns == 0 || t_down_ns == 0 {
        return true;
    }
    let delta: i64 = delta_t_ps as i64 - params.zero_offset_ps as i64;
    if delta < i32::MIN as i64 || delta > i32::MAX as i64 {
        return false;
    }
    let geometry_um: u32 = params.geometry_um();
    let scaled: i128 = 1_000_000i128 * geometry_um as i128;
    proof {
        assert(0 <= scaled * delta <= 1_000_000 * 0xffff_ffffi128 * 0x8000_0000i128 || (
        -1_000_000 * 0xffff_ffffi128 * 0x8000_0000i128 <= scaled * delta <= 0)) by (nonlinear_arith)
            requires
                0 <= scaled <= 1_000_000 * 0xffff_ffffi128,
                -0x8000_0000i128 <= delta <= 0x7fff_ffffi128,
        ;
    }
    let numerator: i128 = scaled * delta as i128;
    if numerator < i64::MIN as i128 || numerator > i64::MAX as i128 {
        return false;
    }
    proof {
        assert(t_up_ns * t_down_ns <= 0xffff_ffff * 0xffff_ffff) by (nonlinear_arith)
            requires
                t_up_ns <= 0xffff_ffff,
                t_down_ns <= 0xffff_ffff,
        ;
    }
    let product: u64 = t_up_ns as u64 * t_down_ns as u64;
    if product > i64::MAX as u64 {
        return false;
    }
    let denominator: i64 = product as i64;
    proof {
        assert(0 < t_up_ns * t_down_ns) by (nonlinear_arith)
            requires
                0 < t_up_ns,
                0 < t_down_ns,
        ;
    }
    let velocity_um_s: i32 = #[verifier::truncate] (div_toward_zero(numerator as i64, denominator) as i32);
    if !(velocity_um_s >= ZERO_CUTOFF_UM_S || velocity_um_s <= -ZERO_CUTOFF_UM_S) {
        return true;
    }
    proof {
        lemma_product_fits(velocity_um_s, params.bore_area_mm2_100);
    }
    let raw: i64 = div_toward_zero(
        (velocity_um_s as i64) * (params.bore_area_mm2_100 as i64),
        100_000,
    );
    proof {
        lemma_raw_rate_bound(velocity_um_s * params.bore_area_mm2_100);
        assert(-0x1_0000_0000_0000i128 * 0x8000_0000i128 <= raw * params.calibration_ppm
            <= 0x1_0000_0000_0000i128 * 0x8000_0000i128) by (nonlinear_arith)
            requires
                -0x1_0000_0000_0000i128 <= raw <= 0x1_0000_0000_0000i128,
                -0x8000_0000i128 <= params.calibration_ppm <= 0x7fff_ffffi128,
        ;
    }
    let correction: i128 = raw as i128 * params.calibration_ppm as i128;
    i64::MIN as i128 <= correction && correction <= i64::MAX as i128
}

proof fn lemma_product_fits(v: i32, bore: u32)
    ensures
        -0x8000_0000 * 0xffff_ffff <= v * bore <= 0x7fff_ffff * 0xffff_ffff,
{
    assert(-0x8000_0000 * 0xffff_ffff <= v * bore <= 0x7fff_ffff * 0xffff_ffff) by (nonlinear_arith)
        requires
            -0x8000_0000 <= v <= 0x7fff_ffff,
            0 <= bore <= 0xffff_ffff,
    ;
}

proof fn lemma_raw_rate_bound(x: int)
    requires
        -0x8000_0000 * 0xffff_ffff <= x <= 0x7fff_ffff * 0xffff_ffff,
    ensures
        -0x1_0000_0000_0000 <= trunc_div(x, 100_000) <= 0x1_0000_0000_0000,
{
}

/// Work out the flow from a difference in flight time and the two absolute flight times.
///
/// `delta_t_ps` is the precise quantity, from the correlation; the two flight times are the coarse
/// ones from the threshold, and appear only as a product in the denominator. A flight time of zero
/// means the burst was not really found, and the answer is `None` rather than a division by it.
pub fn compute(params: &Params, delta_t_ps: i32, t_up_ns: u32, t_down_ns: u32) -> (r: Option<Flow>)
    requires
        in_range(*params, delta_t_ps, t_up_ns, t_down_ns),
    ensures
        r == flow(*params, delta_t_ps, t_up_ns, t_down_ns),
        r is None <==> (t_up_ns == 0 || t_down_ns == 0),
        // Below the cutoff nothing is counted, in either direction.
        r matches Some(f) ==> (f.moving <==> is_moving(f.velocity_um_s)) && (!f.moving
            ==> f.rate_ul_s == 0),
{
    if t_up_ns == 0 || t_down_ns == 0 {
        return None;
    }
    let delta_t_ps: i32 = delta_t_ps - params.zero_offset_ps;

    proof {
        assert(0 < t_up_ns * t_down_ns) by (nonlinear_arith)
            requires
                0 < t_up_ns,
                0 < t_down_ns,
        ;
    }
    let denominator: i64 = t_up_ns as i64 * t_down_ns as i64;
    let numerator: i64 = 1_000_000i64 * params.geometry_um() as i64 * delta_t_ps as i64;
    let velocity_um_s: i32 = #[verifier::truncate] (div_toward_zero(numerator, denominator) as i32);

    let moving: bool = velocity_um_s >= ZERO_CUTOFF_UM_S || velocity_um_s <= -ZERO_CUTOFF_UM_S;

    // A micrometre per second through a square millimetre is a thousandth of a cubic millimetre
    // per second; the area is in hundredths of a square millimetre, which puts another hundred
    // under the line.
    let rate_ul_s: i32 = if moving {
        proof {
            lemma_product_fits(velocity_um_s, params.bore_area_mm2_100);
        }
        let raw: i64 = div_toward_zero(
            velocity_um_s as i64 * params.bore_area_mm2_100 as i64,
            100_000,
        );
        proof {
            lemma_raw_rate_bound(velocity_um_s * params.bore_area_mm2_100);
        }
        // The calibration correction, in parts per million, applied last so that it corrects
        // everything above it at once.
        let correction: i64 = div_toward_zero(raw * params.calibration_ppm as i64, 1_000_000);
        proof {
            assert(-0x1_0000_0000_0000 * 0x8000_0000 <= raw * params.calibration_ppm
                <= 0x1_0000_0000_0000 * 0x8000_0000) by (nonlinear_arith)
                requires
                    -0x1_0000_0000_0000 <= raw <= 0x1_0000_0000_0000,
                    -0x8000_0000 <= params.calibration_ppm <= 0x7fff_ffff,
            ;
        }
        #[verifier::truncate] ((raw + correction) as i32)
    } else {
        0
    };

    Some(Flow { velocity_um_s, rate_ul_s, moving })
}

/// How much water went past in `seconds` at `rate_ul_s`, held inside an `i32` rather than
/// wrapping.
///
/// Rectangular integration: the meter does not know what happened between measurements, and
/// pretending it was a straight line between two samples would be an invention.
pub fn volume_ul(rate_ul_s: i32, seconds: u32) -> (r: i32)
    ensures
        r == volume(rate_ul_s, seconds),
{
    let s: i32 = seconds as i32;
    proof {
        assert(-0x8000_0000 * 0x8000_0000 <= rate_ul_s * s <= 0x8000_0000 * 0x8000_0000) by (nonlinear_arith)
            requires
                -0x8000_0000 <= rate_ul_s <= 0x7fff_ffff,
                -0x8000_0000 <= s <= 0x7fff_ffff,
        ;
    }
    let product: i64 = rate_ul_s as i64 * s as i64;
    if product > i32::MAX as i64 {
        i32::MAX
    } else if product < i32::MIN as i64 {
        i32::MIN
    } else {
        product as i32
    }
}

/// A closed tap reads as one: a measurement that shows exactly the instrument's own zero offset
/// is no flow at all, neither way, with nothing counted.
pub proof fn lemma_zero_offset_reads_still(p: Params, t_up_ns: u32, t_down_ns: u32)
    requires
        t_up_ns > 0,
        t_down_ns > 0,
    ensures
        flow(p, p.zero_offset_ps, t_up_ns, t_down_ns) == Some(
            Flow { velocity_um_s: 0, rate_ul_s: 0, moving: false },
        ),
{
    assert(numerator(p, p.zero_offset_ps) == 0);
    assert(t_up_ns * t_down_ns > 0) by (nonlinear_arith)
        requires
            t_up_ns > 0,
            t_down_ns > 0,
    ;
}

/// The inputs on which nothing is cut to fit: the velocity, and the corrected rate where water
/// counts as moving, come out inside an `i32` as they are, with room to change sign.
pub open spec fn unclipped(p: Params, delta_t_ps: i32, t_up_ns: u32, t_down_ns: u32) -> bool {
    t_up_ns == 0 || t_down_ns == 0 || {
        let x = trunc_div(numerator(p, delta_t_ps), t_up_ns * t_down_ns);
        let raw = raw_rate(p, x as i32);
        &&& -i32::MAX <= x <= i32::MAX
        &&& is_moving(x as i32) ==> -i32::MAX <= raw + trunc_div(raw * p.calibration_ppm, 1_000_000)
            <= i32::MAX
    }
}

proof fn lemma_trunc_div_negates(a: int, b: int)
    requires
        b > 0,
    ensures
        trunc_div(-a, b) == -trunc_div(a, b),
{
}

/// Flow the other way changes the sign and nothing else: on an instrument with no zero offset,
/// the opposite difference in flight time gives the opposite velocity and the opposite rate, and
/// counts as moving exactly when the original does — wherever nothing has to be cut to fit.
pub proof fn lemma_reverse_flow_mirrors(p: Params, delta_t_ps: i32, t_up_ns: u32, t_down_ns: u32)
    requires
        p.zero_offset_ps == 0,
        delta_t_ps > i32::MIN,
        unclipped(p, delta_t_ps, t_up_ns, t_down_ns),
    ensures
        match (flow(p, (-delta_t_ps) as i32, t_up_ns, t_down_ns), flow(p, delta_t_ps, t_up_ns, t_down_ns)) {
            (Some(back), Some(forth)) => {
                &&& back.velocity_um_s == -forth.velocity_um_s
                &&& back.rate_ul_s == -forth.rate_ul_s
                &&& back.moving == forth.moving
            },
            (None, None) => true,
            _ => false,
        },
{
    if t_up_ns > 0 && t_down_ns > 0 {
        let d: int = delta_t_ps as int;
        let g: int = geometry(p) as int;
        assert(t_up_ns * t_down_ns > 0) by (nonlinear_arith)
            requires
                t_up_ns > 0,
                t_down_ns > 0,
        ;
        let den: int = t_up_ns * t_down_ns;
        assert(forall|a: int, b: int| #![trigger a * b] a * (-b) == -(a * b)) by (nonlinear_arith);
        assert(1_000_000 * g * (-d) == -(1_000_000 * g * d));
        assert(numerator(p, (-delta_t_ps) as i32) == -numerator(p, delta_t_ps));
        let x: int = trunc_div(numerator(p, delta_t_ps), den);
        lemma_trunc_div_negates(numerator(p, delta_t_ps), den);
        let v: i32 = x as i32;
        let w: i32 = (-x) as i32;
        assert(v == x && w == -x);
        assert(velocity(p, (-delta_t_ps) as i32, t_up_ns, t_down_ns) == w);
        assert(velocity(p, delta_t_ps, t_up_ns, t_down_ns) == v);
        if is_moving(v) {
            let bore: int = p.bore_area_mm2_100 as int;
            assert((-(v as int)) * bore == -((v as int) * bore)) by (nonlinear_arith);
            lemma_trunc_div_negates(v * bore, 100_000);
            let raw: int = raw_rate(p, v);
            assert(raw_rate(p, w) == -raw);
            let ppm: int = p.calibration_ppm as int;
            assert((-raw) * ppm == -(raw * ppm)) by (nonlinear_arith);
            lemma_trunc_div_negates(raw * ppm, 1_000_000);
            assert(rate(p, w) == -rate(p, v));
        }
    }
}

/// Water counted over an interval goes the way the water went: a forward rate never adds a
/// backward volume, nor a backward rate a forward one.
pub proof fn lemma_volume_follows_rate(rate_ul_s: i32, seconds: u32)
    requires
        seconds <= i32::MAX,
    ensures
        rate_ul_s >= 0 ==> volume(rate_ul_s, seconds) >= 0,
        rate_ul_s <= 0 ==> volume(rate_ul_s, seconds) <= 0,
        seconds == 0 ==> volume(rate_ul_s, seconds) == 0,
{
    assert(rate_ul_s >= 0 ==> rate_ul_s * seconds >= 0) by (nonlinear_arith)
        requires
            seconds >= 0,
    ;
    assert(rate_ul_s <= 0 ==> rate_ul_s * seconds <= 0) by (nonlinear_arith)
        requires
            seconds >= 0,
    ;
}

} // verus!
