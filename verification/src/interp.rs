//! Linear interpolation between two time-stamped samples.
//!
//! Values are fixed-point integers; the interpolated value is the exact
//! rational value of the line through the two anchor points, rounded toward
//! negative infinity.

use vstd::arithmetic::div_mod::lemma_div_by_multiple;
use vstd::arithmetic::div_mod::lemma_div_is_ordered;
use vstd::arithmetic::div_mod::lemma_hoist_over_denominator;
use vstd::arithmetic::mul::lemma_mul_upper_bound;
use vstd::prelude::*;

verus! {

/// Value at time `t` of the line through `(old_time, old_value)` and
/// `(new_time, new_value)`, rounded toward negative infinity.
pub open spec fn interp_spec(
    old_time: int,
    old_value: int,
    new_time: int,
    new_value: int,
    t: int,
) -> int
    recommends
        old_time < new_time,
{
    (old_value * (new_time - t) + new_value * (t - old_time)) / (new_time - old_time)
}

/// Interpolation of a line anchored at the origin is the plain ramp
/// `v_end * t / t_end`; in particular it is exact whenever `t_end` divides
/// `v_end * t`.
pub proof fn lemma_interpolate_from_origin(t_end: int, v_end: int, t: int)
    requires
        0 < t_end,
        0 <= t <= t_end,
    ensures
        interp_spec(0, 0, t_end, v_end, t) == v_end * t / t_end,
{
    assert(0 * (t_end - t) + v_end * (t - 0) == v_end * t) by (nonlinear_arith);
}

/// Exact linear interpolation at `interp_time` between the samples
/// `(old_time, old_value)` and `(new_time, new_value)`; the result always
/// lies between the two anchor values.
pub fn interpolate(
    old_time: u64,
    old_value: i64,
    new_time: u64,
    new_value: i64,
    interp_time: u64,
) -> (r: i64)
    requires
        old_time < new_time,
        old_time <= interp_time <= new_time,
    ensures
        r == interp_spec(
            old_time as int,
            old_value as int,
            new_time as int,
            new_value as int,
            interp_time as int,
        ),
        old_value <= new_value ==> old_value <= r <= new_value,
        new_value <= old_value ==> new_value <= r <= old_value,
{
    let span: u64 = new_time - old_time;
    let (lo, hi, w): (i64, i64, u64) = if old_value <= new_value {
        (old_value, new_value, interp_time - old_time)
    } else {
        (new_value, old_value, new_time - interp_time)
    };
    let diff: u64 = (hi as i128 - lo as i128) as u64;
    proof {
        let ot = old_time as int;
        let ov = old_value as int;
        let nt = new_time as int;
        let nv = new_value as int;
        let it = interp_time as int;
        // The weighted sum of the anchors is the lower anchor shifted by the
        // value gap, weighted by the distance to the matching anchor.
        if old_value <= new_value {
            assert(ov * (nt - it) + nv * (it - ot) == (ov * (nt - ot) + (nv - ov) * (it - ot)))
                by (nonlinear_arith);
        } else {
            assert(ov * (nt - it) + nv * (it - ot) == (nv * (nt - ot) + (ov - nv) * (nt - it)))
                by (nonlinear_arith);
        }
        lemma_mul_upper_bound(diff as int, u64::MAX as int, w as int, u64::MAX as int);
    }
    let prod: u128 = (diff as u128) * (w as u128);
    let q: u128 = prod / (span as u128);
    proof {
        let d = diff as int;
        let ww = w as int;
        let sp = span as int;
        assert(d * ww <= d * sp) by (nonlinear_arith)
            requires
                0 <= d,
                ww <= sp,
        ;
        lemma_div_is_ordered(d * ww, d * sp, sp);
        lemma_div_by_multiple(d, sp);
        assert(q as int <= d);
        // Hoist the lower anchor out of the quotient.
        lemma_hoist_over_denominator(d * ww, lo as int, span as nat);
        assert(lo as int + (d * ww) / sp == (lo as int * sp + d * ww) / sp);
    }
    let r: i64 = ((lo as i128) + (q as i128)) as i64;
    r
}

} // verus!
