//! Laws of the motion solver, proved once and for all over the same
//! specification functions that the executable contracts use.

use vstd::prelude::*;

use crate::kinematics::{
    axis_result, clamp_i, csign, mk_target, solve_v, solve_v_ds, sum_dt, tdiv_g, wf_targets,
    Target,
};
use crate::num::{abs_i, tdiv};
use crate::world_data::{ACC_LIMIT, VEL_LIMIT};

verus! {

/// Integration consumes pending segment time exactly: one pass over an axis
/// reduces the total pending duration by the tick duration (to a floor of
/// zero), and the pending list empties precisely when its time is used up.
pub proof fn lemma_axis_time(ts: Seq<Target>, v: int, maxv: int, dt: int)
    requires
        wf_targets(ts),
        0 < dt,
    ensures
        ({
            let (tsf, vf, dsf) = axis_result(ts, v, maxv, dt);
            &&& sum_dt(tsf) == (if sum_dt(ts) <= dt {
                0int
            } else {
                sum_dt(ts) - dt
            })
            &&& (sum_dt(ts) < dt ==> tsf.len() == 0)
            &&& (tsf.len() == 0 ==> sum_dt(ts) <= dt)
            &&& wf_targets(tsf)
        }),
    decreases ts.len(),
{
    if ts.len() == 0 {
        let vc = clamp_i(v, maxv);
        assert(axis_result(ts, v, maxv, dt) == (ts, vc, tdiv(vc * dt, 1000)));
        assert(sum_dt(ts) == 0);
    } else {
        let t0 = ts[0];
        assert(target_wf_at(ts, 0));
        let used = if t0.dt < 0 {
            0
        } else if t0.dt < dt {
            t0.dt as int
        } else {
            dt
        };
        let vn = clamp_i(v + tdiv(t0.a * used, 1000), maxv);
        lemma_sum_dt_first(ts);
        if t0.dt <= dt {
            assert(wf_targets(ts.drop_first())) by {
                assert(forall|i: int|
                    0 <= i < ts.len() - 1 ==> ts.drop_first()[i] == #[trigger] ts[i + 1]);
            }
            let rest = axis_result(ts.drop_first(), vn, maxv, dt - used);
            assert(axis_result(ts, v, maxv, dt) == (
                rest.0,
                rest.1,
                tdiv((v + vn) * used, 2000) + rest.2,
            ));
            if dt - used > 0 {
                lemma_axis_time(ts.drop_first(), vn, maxv, dt - used);
            } else {
                // The tick ends exactly at the segment boundary.
                lemma_sum_dt_nonneg_pub(ts.drop_first());
                if ts.drop_first().len() == 0 {
                    assert(rest.0 =~= Seq::<Target>::empty());
                    assert(sum_dt(rest.0) == 0);
                } else {
                    assert(rest == (ts.drop_first(), vn, 0int));
                }
            }
        } else {
            let tsf = ts.update(0, Target { a: t0.a, dt: (t0.dt - used) as i64 });
            assert(axis_result(ts, v, maxv, dt) == (tsf, vn, tdiv((v + vn) * used, 2000)));
            lemma_sum_dt_first(tsf);
            assert(tsf.drop_first() =~= ts.drop_first());
            assert(wf_targets(ts.drop_first())) by {
                assert(forall|i: int|
                    0 <= i < ts.len() - 1 ==> ts.drop_first()[i] == #[trigger] ts[i + 1]);
            }
            lemma_sum_dt_nonneg_pub(ts.drop_first());
            assert(wf_targets(tsf)) by {
                assert(forall|i: int| 1 <= i < ts.len() ==> tsf[i] == #[trigger] ts[i]);
                assert(crate::kinematics::target_wf(tsf[0]));
            }
        }
    }
}

/// The first segment accounts for the head of the total duration.
proof fn lemma_sum_dt_first(ts: Seq<Target>)
    requires
        ts.len() >= 1,
    ensures
        sum_dt(ts) == ts[0].dt + sum_dt(ts.drop_first()),
    decreases ts.len(),
{
    if ts.len() == 1 {
        assert(ts.drop_last() =~= Seq::<Target>::empty());
        assert(ts.drop_first() =~= Seq::<Target>::empty());
    } else {
        lemma_sum_dt_first(ts.drop_last());
        assert(ts.drop_last().drop_first() =~= ts.drop_first().drop_last());
        assert(ts.drop_last()[0] == ts[0]);
        assert(ts.drop_first().last() == ts.last());
    }
}

/// Total pending time of an acceptable list is nonnegative.
pub proof fn lemma_sum_dt_nonneg_pub(ts: Seq<Target>)
    requires
        wf_targets(ts),
    ensures
        sum_dt(ts) >= 0,
    decreases ts.len(),
{
    if ts.len() > 0 {
        assert(crate::kinematics::target_wf(ts[ts.len() - 1]));
        assert(wf_targets(ts.drop_last())) by {
            assert(forall|i: int|
                0 <= i < ts.len() - 1 ==> ts.drop_last()[i] == #[trigger] ts[i]);
        }
        lemma_sum_dt_nonneg_pub(ts.drop_last());
    }
}

spec fn target_wf_at(ts: Seq<Target>, i: int) -> bool {
    crate::kinematics::target_wf(ts[i])
}

/// Velocity-ramp convergence: for a reachable target velocity `v` and a
/// maximum acceleration that is a whole number of milli-units per second
/// squared, one integration pass that covers the ramp's duration empties the
/// pending list and leaves the tracked velocity within one second's worth of
/// acceleration of the target — the ramp's only rounding is the truncated
/// segment duration.
pub proof fn lemma_ramp_converges(v: int, max_a: int, u: int, maxv: int, dt: int)
    requires
        max_a % 1000 == 0,
        1000 <= max_a <= ACC_LIMIT,
        abs_i(u) <= maxv,
        abs_i(v) <= maxv,
        0 < maxv <= VEL_LIMIT,
        0 < dt,
        sum_dt(solve_v(v, max_a, u)) <= dt,
    ensures
        ({
            let (tsf, vf, dsf) = axis_result(solve_v(v, max_a, u), u, maxv, dt);
            tsf.len() == 0 && abs_i(vf - v) < tdiv(max_a, 1000)
        }),
{
    let a = csign(max_a, v - u);
    let t_raw = tdiv_g(1000 * (v - u), a);
    let big = max_a / 1000;
    assert(max_a == 1000 * big) by {
        vstd::arithmetic::div_mod::lemma_fundamental_div_mod(max_a, 1000);
    }
    let d = abs_i(v - u);
    // The raw duration is |v - u| / (max_a / 1000), truncated.
    assert(t_raw == tdiv(d, big)) by {
        if v >= u {
            assert(a == max_a);
            assert(1000 * (v - u) == 1000 * d);
            lemma_div_thousand_cancel(d, big);
        } else {
            assert(a == -max_a);
            assert(-(1000 * (v - u)) == 1000 * d);
            lemma_div_thousand_cancel(d, big);
        }
    }
    assert(0 <= t_raw) by {
        vstd::arithmetic::div_mod::lemma_div_pos_is_pos(d, big);
    }
    assert(t_raw <= d) by {
        vstd::arithmetic::div_mod::lemma_div_nonincreasing(d, big);
    }
    let seg = mk_target(a, t_raw);
    assert(seg.a == a && seg.dt == t_raw) by {
        assert(d <= 2 * (VEL_LIMIT as int));
        assert(t_raw <= crate::kinematics::TIME_LIMIT);
    }
    let ts = solve_v(v, max_a, u);
    assert(ts =~= seq![seg]);
    assert(sum_dt(ts) == t_raw) by {
        assert(ts.drop_last() =~= Seq::<Target>::empty());
        assert(sum_dt(Seq::<Target>::empty()) == 0);
        assert(ts.last() == seg);
    }
    // One pass: the segment is consumed whole, then the remainder coasts.
    let used = t_raw;
    let dv = tdiv(a * used, 1000);
    assert(dv == (if v >= u {
        big * tdiv(d, big)
    } else {
        -(big * tdiv(d, big))
    })) by {
        if v >= u {
            assert(a * used == 1000 * (big * used)) by (nonlinear_arith)
                requires
                    a == 1000 * big,
            ;
            lemma_div_thousand_exact(big * used);
            assert(used == tdiv(d, big));
        } else {
            assert(a * used == -(1000 * (big * used))) by (nonlinear_arith)
                requires
                    a == -(1000 * big),
            ;
            lemma_div_thousand_exact(big * used);
            assert(used == tdiv(d, big));
        }
    }
    // The consumed ramp reaches the target up to the division remainder.
    let rem = d % big;
    assert(big * tdiv(d, big) == d - rem) by {
        vstd::arithmetic::div_mod::lemma_fundamental_div_mod(d, big);
    }
    assert(0 <= rem < big) by {
        vstd::arithmetic::div_mod::lemma_mod_division_less_than_divisor(d, big);
    }
    let vn_raw = u + dv;
    assert(vn_raw == (if v >= u {
        v - rem
    } else {
        v + rem
    }));
    assert(abs_i(vn_raw) <= maxv);
    assert(clamp_i(vn_raw, maxv) == vn_raw);
    // Unfold the integration pass on the one-segment list.
    let (tsf, vf, dsf) = axis_result(ts, u, maxv, dt);
    assert(ts[0] == seg);
    assert(ts.drop_first() =~= Seq::<Target>::empty());
    let spec_used = if seg.dt < 0 {
        0int
    } else if seg.dt < dt {
        seg.dt as int
    } else {
        dt
    };
    assert(spec_used == used);
    let spec_vn = clamp_i(u + tdiv(seg.a * spec_used, 1000), maxv);
    assert(spec_vn == vn_raw);
    let rest = axis_result(ts.drop_first(), spec_vn, maxv, dt - spec_used);
    assert(rest == (
        ts.drop_first(),
        spec_vn,
        tdiv(spec_vn * (dt - spec_used), 1000),
    ));
    assert(axis_result(ts, u, maxv, dt) == (
        rest.0,
        rest.1,
        tdiv((u + spec_vn) * spec_used, 2000) + rest.2,
    ));
    assert(vf == vn_raw);
    assert(abs_i(vf - v) < big);
    assert(big == tdiv(max_a, 1000));
}

/// Velocity after consuming a whole list of segments, each contributing its
/// acceleration (in whole milli-units per second squared) times its duration.
pub open spec fn vel_after(ts: Seq<Target>, v: int) -> int
    decreases ts.len(),
{
    if ts.len() == 0 {
        v
    } else {
        vel_after(ts.drop_first(), v + (ts[0].a / 1000) * ts[0].dt)
    }
}

/// Every intermediate velocity of the profile stays within the axis limit.
pub open spec fn vels_bounded(ts: Seq<Target>, v: int, maxv: int) -> bool
    decreases ts.len(),
{
    abs_i(v) <= maxv && (ts.len() == 0 || vels_bounded(
        ts.drop_first(),
        v + (ts[0].a / 1000) * ts[0].dt,
        maxv,
    ))
}

/// A profile with no pending time leaves the velocity alone.
proof fn lemma_vel_after_zero(ts: Seq<Target>, v: int)
    requires
        wf_targets(ts),
        sum_dt(ts) == 0,
    ensures
        vel_after(ts, v) == v,
    decreases ts.len(),
{
    if ts.len() > 0 {
        lemma_sum_dt_first(ts);
        assert(crate::kinematics::target_wf(ts[0]));
        assert(wf_targets(ts.drop_first())) by {
            assert(forall|i: int|
                0 <= i < ts.len() - 1 ==> ts.drop_first()[i] == #[trigger] ts[i + 1]);
        }
        lemma_sum_dt_nonneg_pub(ts.drop_first());
        assert(ts[0].dt == 0);
        assert((ts[0].a / 1000) * (ts[0].dt as int) == 0) by (nonlinear_arith)
            requires
                ts[0].dt == 0,
        ;
        lemma_vel_after_zero(ts.drop_first(), v);
    }
}

/// Integration is exact on whole-milli accelerations: one pass that covers
/// the whole pending time, with every intermediate velocity inside the axis
/// limit, tracks the closed-form profile velocity with no rounding of its
/// own.  Together with the ramp law this pins the solver's convergence: the
/// only rounding in a consumed profile is in the solver's segment durations.
pub proof fn lemma_exact_velocity(ts: Seq<Target>, v: int, maxv: int, dt: int)
    requires
        wf_targets(ts),
        0 < dt,
        sum_dt(ts) <= dt,
        forall|i: int| 0 <= i < ts.len() ==> (#[trigger] ts[i]).a % 1000 == 0,
        vels_bounded(ts, v, maxv),
        0 < maxv,
    ensures
        axis_result(ts, v, maxv, dt).1 == vel_after(ts, v),
    decreases ts.len(),
{
    if ts.len() == 0 {
    } else {
        let t0 = ts[0];
        assert(crate::kinematics::target_wf(t0));
        assert(wf_targets(ts.drop_first())) by {
            assert(forall|i: int|
                0 <= i < ts.len() - 1 ==> ts.drop_first()[i] == #[trigger] ts[i + 1]);
        }
        assert(forall|i: int|
            0 <= i < ts.drop_first().len() ==> (#[trigger] ts.drop_first()[i]).a % 1000
                == 0) by {
            assert(forall|i: int|
                0 <= i < ts.len() - 1 ==> ts.drop_first()[i] == #[trigger] ts[i + 1]);
        }
        lemma_sum_dt_first(ts);
        lemma_sum_dt_nonneg_pub(ts.drop_first());
        // The whole head segment is consumed in one step.
        let used = t0.dt as int;
        let big0 = t0.a / 1000;
        assert(t0.a == 1000 * big0) by {
            vstd::arithmetic::div_mod::lemma_fundamental_div_mod(t0.a as int, 1000);
        }
        let dv = tdiv(t0.a * used, 1000);
        assert(dv == big0 * used) by {
            assert(t0.a * used == 1000 * (big0 * used)) by (nonlinear_arith)
                requires
                    t0.a == 1000 * big0,
            ;
            lemma_div_thousand_exact(big0 * used);
        }
        let vn_raw = v + dv;
        assert(vels_bounded(ts.drop_first(), v + (ts[0].a / 1000) * ts[0].dt, maxv));
        assert(v + (ts[0].a / 1000) * ts[0].dt == vn_raw);
        assert(vels_bounded(ts.drop_first(), vn_raw, maxv));
        assert(abs_i(vn_raw) <= maxv);
        assert(clamp_i(vn_raw, maxv) == vn_raw);
        let rest = axis_result(ts.drop_first(), vn_raw, maxv, dt - used);
        assert(axis_result(ts, v, maxv, dt) == (
            rest.0,
            rest.1,
            tdiv((v + vn_raw) * used, 2000) + rest.2,
        ));
        if dt - used > 0 {
            lemma_exact_velocity(ts.drop_first(), vn_raw, maxv, dt - used);
        } else {
            // No tick time remains, so no pending time remains either.
            assert(sum_dt(ts.drop_first()) == 0);
            lemma_vel_after_zero(ts.drop_first(), vn_raw);
            if ts.drop_first().len() == 0 {
                assert(rest.1 == vn_raw);
            } else {
                assert(rest == (ts.drop_first(), vn_raw, 0int));
            }
        }
    }
}

/// One signed constant-acceleration step: driving a velocity difference
/// `delta` at magnitude `max_a` (a whole number of milli-units), over the
/// truncated duration the solver computes, covers `delta` except for a
/// remainder smaller than one second's worth of acceleration, and never
/// overshoots.
proof fn lemma_signed_step(delta: int, max_a: int)
    requires
        max_a % 1000 == 0,
        1000 <= max_a,
    ensures
        ({
            let a = csign(max_a, delta);
            let t = tdiv_g(1000 * delta, a);
            let big = max_a / 1000;
            let step = (a / 1000) * t;
            &&& 0 <= t
            &&& abs_i(delta - step) < big
            &&& (0 <= step <= delta || delta <= step <= 0)
            &&& a / 1000 == (if delta >= 0 {
                big
            } else {
                -big
            })
        }),
{
    let a = csign(max_a, delta);
    let t = tdiv_g(1000 * delta, a);
    let big = max_a / 1000;
    assert(max_a == 1000 * big) by {
        vstd::arithmetic::div_mod::lemma_fundamental_div_mod(max_a, 1000);
    }
    let d = abs_i(delta);
    assert(t == tdiv(d, big)) by {
        if delta >= 0 {
            assert(a == max_a);
            assert(1000 * delta == 1000 * d);
            lemma_div_thousand_cancel(d, big);
        } else {
            assert(a == -max_a);
            assert(-(1000 * delta) == 1000 * d);
            lemma_div_thousand_cancel(d, big);
        }
    }
    assert(0 <= t) by {
        vstd::arithmetic::div_mod::lemma_div_pos_is_pos(d, big);
    }
    let rem = d % big;
    assert(big * tdiv(d, big) == d - rem) by {
        vstd::arithmetic::div_mod::lemma_fundamental_div_mod(d, big);
    }
    assert(0 <= rem < big) by {
        vstd::arithmetic::div_mod::lemma_mod_division_less_than_divisor(d, big);
    }
    if delta >= 0 {
        assert(a / 1000 == big) by {
            vstd::arithmetic::div_mod::lemma_div_multiples_vanish(big, 1000);
        }
        assert((a / 1000) * t == d - rem);
    } else {
        assert(a / 1000 == -big) by {
            vstd::arithmetic::div_mod::lemma_div_multiples_vanish(-big, 1000);
            assert(-max_a == 1000 * (-big));
        }
        assert((a / 1000) * t == -(big * tdiv(d, big))) by (nonlinear_arith)
            requires
                a / 1000 == -big,
                t == tdiv(d, big),
        ;
        assert((a / 1000) * t == -(d - rem));
    }
}

/// Trapezoidal-profile convergence, velocity half: when the solver answers a
/// `(v, ds)` request with the three-segment velocity-capped profile and the
/// tick covers its whole duration, the pending list empties and the tracked
/// velocity lands within two seconds' worth of acceleration of `v` — the
/// only rounding is the two truncated segment durations.  (The aggregate
/// displacement is exercised by tests; its bound is not proved here.)
pub proof fn lemma_trapezoid_final_velocity(
    v: int,
    ds: int,
    max_v: int,
    max_a: int,
    u: int,
    maxv: int,
    dt: int,
)
    requires
        max_a % 1000 == 0,
        1000 <= max_a <= ACC_LIMIT,
        1 <= max_v <= maxv,
        abs_i(u) <= maxv,
        abs_i(v) + 2 * (max_a / 1000) <= maxv,
        maxv <= VEL_LIMIT,
        solve_v_ds(v, ds, max_v, max_a, u) matches Ok(pr) && pr.len() == 3,
        0 < dt,
        sum_dt(solve_v_ds(v, ds, max_v, max_a, u)->Ok_0) < dt,
    ensures
        ({
            let ts = solve_v_ds(v, ds, max_v, max_a, u)->Ok_0;
            let (tsf, vf, dsf) = axis_result(ts, u, maxv, dt);
            tsf.len() == 0 && abs_i(vf - v) < 2 * (max_a / 1000)
        }),
{
    let mv = csign(max_v, ds);
    let aa = csign(max_a, mv - u);
    let da = csign(max_a, v - mv);
    let macc = tdiv_g(mv * mv - u * u, 2 * aa);
    let mdec = tdiv_g(v * v - mv * mv, 2 * da);
    let ts = solve_v_ds(v, ds, max_v, max_a, u)->Ok_0;
    // Only the trapezoidal branch produces three segments.
    assert((macc + mdec > 0 && ds > macc + mdec) || (macc + mdec < 0 && ds < macc + mdec));
    let t1 = tdiv_g(1000 * (mv - u), aa);
    let t2 = tdiv_g(1000 * (ds - macc - mdec), mv);
    let t3 = tdiv_g(1000 * (v - mv), da);
    let s1 = mk_target(aa, t1);
    let s2 = mk_target(0, t2);
    let s3 = mk_target(da, t3);
    assert(ts =~= seq![s1, s2, s3]);
    let big = max_a / 1000;
    lemma_signed_step(mv - u, max_a);
    lemma_signed_step(v - mv, max_a);
    // The acceleration segments keep their exact values through the range
    // clamp; only the coast duration may saturate, and it carries no
    // acceleration.
    assert(s1.a == aa && s3.a == da) by {
        assert(abs_i(aa) <= ACC_LIMIT && abs_i(da) <= ACC_LIMIT);
    }
    assert(s1.dt == t1 && s3.dt == t3) by {
        assert(abs_i(mv - u) <= 2 * (VEL_LIMIT as int));
        assert(abs_i(v - mv) <= 2 * (VEL_LIMIT as int));
        assert(0 <= t1 <= abs_i(mv - u)) by {
            vstd::arithmetic::div_mod::lemma_div_pos_is_pos(abs_i(mv - u), big);
            crate::num::lemma_tdiv_shrinks(1000 * (mv - u), 1000);
            if mv - u >= 0 {
                vstd::arithmetic::div_mod::lemma_div_is_ordered_by_denominator(
                    1000 * (mv - u),
                    1000,
                    max_a,
                );
                vstd::arithmetic::div_mod::lemma_div_multiples_vanish(mv - u, 1000);
            } else {
                vstd::arithmetic::div_mod::lemma_div_is_ordered_by_denominator(
                    -(1000 * (mv - u)),
                    1000,
                    max_a,
                );
                vstd::arithmetic::div_mod::lemma_div_multiples_vanish(-(mv - u), 1000);
                assert(-(1000 * (mv - u)) == 1000 * (u - mv));
            }
        }
        assert(0 <= t3 <= abs_i(v - mv)) by {
            if v - mv >= 0 {
                vstd::arithmetic::div_mod::lemma_div_is_ordered_by_denominator(
                    1000 * (v - mv),
                    1000,
                    max_a,
                );
                vstd::arithmetic::div_mod::lemma_div_multiples_vanish(v - mv, 1000);
            } else {
                vstd::arithmetic::div_mod::lemma_div_is_ordered_by_denominator(
                    -(1000 * (v - mv)),
                    1000,
                    max_a,
                );
                vstd::arithmetic::div_mod::lemma_div_multiples_vanish(-(v - mv), 1000);
                assert(-(1000 * (v - mv)) == 1000 * (mv - v));
            }
        }
        assert(0 <= t1 <= crate::kinematics::TIME_LIMIT);
        assert(0 <= t3 <= crate::kinematics::TIME_LIMIT);
    }
    let step1 = (aa / 1000) * t1;
    let step3 = (da / 1000) * t3;
    let v1 = u + step1;
    let v3 = v1 + step3;
    // Every intermediate velocity stays inside the axis limit.
    assert(abs_i(v1) <= maxv) by {
        assert(abs_i(mv) == max_v);
    }
    assert(abs_i(v3) <= maxv) by {
        assert(v3 == v - (mv - u - step1) - (v - mv - step3));
        assert(abs_i(mv - u - step1) < big);
        assert(abs_i(v - mv - step3) < big);
    }
    assert(vels_bounded(ts, u, maxv)) by {
        assert(ts.drop_first() =~= seq![s2, s3]);
        assert(seq![s2, s3].drop_first() =~= seq![s3]);
        assert(seq![s3].drop_first() =~= Seq::<Target>::empty());
        assert(s2.a / 1000 == 0) by {
            assert(s2.a == 0);
        }
        assert((s2.a / 1000) * (s2.dt as int) == 0) by (nonlinear_arith)
            requires
                s2.a / 1000 == 0,
        ;
        assert(u + (ts[0].a / 1000) * ts[0].dt == v1);
        assert(vels_bounded(Seq::<Target>::empty(), v3, maxv));
        assert(vels_bounded(seq![s3], v1, maxv)) by {
            assert(v1 + (s3.a / 1000) * (s3.dt as int) == v3);
            assert(vels_bounded(Seq::<Target>::empty(), v3, maxv));
        }
        assert(vels_bounded(seq![s2, s3], v1, maxv));
    }
    assert(wf_targets(ts)) by {
        assert(crate::kinematics::target_wf(s1));
        assert(crate::kinematics::target_wf(s2));
        assert(crate::kinematics::target_wf(s3));
        assert(forall|i: int| 0 <= i < 3 ==> (#[trigger] ts[i]) == seq![s1, s2, s3][i]);
    }
    assert(forall|i: int| 0 <= i < ts.len() ==> (#[trigger] ts[i]).a % 1000 == 0) by {
        assert(aa % 1000 == 0 && da % 1000 == 0) by {
            assert(aa == max_a || aa == -max_a);
            assert(da == max_a || da == -max_a);
            if aa == -max_a || da == -max_a {
                vstd::arithmetic::div_mod::lemma_mod_multiples_vanish(
                    -2 * (max_a / 1000),
                    max_a,
                    1000,
                );
            }
            assert((-max_a) % 1000 == 0) by {
                assert(-max_a == 1000 * (-(max_a / 1000)) + 0) by {
                    vstd::arithmetic::div_mod::lemma_fundamental_div_mod(max_a, 1000);
                }
                vstd::arithmetic::div_mod::lemma_fundamental_div_mod_converse_mod(
                    -max_a,
                    1000,
                    -(max_a / 1000),
                    0,
                );
            }
        }
        assert(ts[0].a == aa && ts[1].a == 0 && ts[2].a == da);
    }
    lemma_exact_velocity(ts, u, maxv, dt);
    // The profile velocity telescopes to the target up to two remainders.
    assert(vel_after(ts, u) == v3) by {
        assert(ts.drop_first() =~= seq![s2, s3]);
        assert(seq![s2, s3].drop_first() =~= seq![s3]);
        assert(seq![s3].drop_first() =~= Seq::<Target>::empty());
        assert((s2.a / 1000) * (s2.dt as int) == 0) by (nonlinear_arith)
            requires
                s2.a == 0,
        ;
        assert(vel_after(Seq::<Target>::empty(), v3) == v3);
        assert(vel_after(seq![s3], v1) == v3) by {
            assert(v1 + (s3.a / 1000) * (s3.dt as int) == v3);
            assert(vel_after(Seq::<Target>::empty(), v3) == v3);
        }
        assert(vel_after(seq![s2, s3], v1) == v3);
    }
    assert(abs_i(v3 - v) < 2 * big) by {
        assert(v3 == v - (mv - u - step1) - (v - mv - step3));
        assert(abs_i(mv - u - step1) < big);
        assert(abs_i(v - mv - step3) < big);
    }
    lemma_axis_time(ts, u, maxv, dt);
}

/// Displacement after consuming a whole list of segments: the trapezoidal
/// area of each segment, with a single truncating division per segment.
pub open spec fn ds_after(ts: Seq<Target>, v: int) -> int
    decreases ts.len(),
{
    if ts.len() == 0 {
        0
    } else {
        let vn = v + (ts[0].a / 1000) * ts[0].dt;
        tdiv((v + vn) * ts[0].dt, 2000) + ds_after(ts.drop_first(), vn)
    }
}

/// A profile with no pending time travels nowhere.
proof fn lemma_ds_after_zero(ts: Seq<Target>, v: int)
    requires
        wf_targets(ts),
        sum_dt(ts) == 0,
    ensures
        ds_after(ts, v) == 0,
        vel_after(ts, v) == v,
    decreases ts.len(),
{
    lemma_vel_after_zero(ts, v);
    if ts.len() > 0 {
        lemma_sum_dt_first(ts);
        assert(crate::kinematics::target_wf(ts[0]));
        assert(wf_targets(ts.drop_first())) by {
            assert(forall|i: int|
                0 <= i < ts.len() - 1 ==> ts.drop_first()[i] == #[trigger] ts[i + 1]);
        }
        lemma_sum_dt_nonneg_pub(ts.drop_first());
        assert(ts[0].dt == 0);
        assert((ts[0].a / 1000) * (ts[0].dt as int) == 0) by (nonlinear_arith)
            requires
                ts[0].dt == 0,
        ;
        assert((v + v) * (ts[0].dt as int) == 0) by (nonlinear_arith)
            requires
                ts[0].dt == 0,
        ;
        assert(tdiv(0, 2000) == 0);
        lemma_ds_after_zero(ts.drop_first(), v);
    }
}

/// Integration computes the exact trapezoidal areas of the profile: one
/// pass that covers the whole pending time returns the per-segment areas
/// (one truncating division each) plus the coast over the remaining tick
/// time at the final velocity.
pub proof fn lemma_exact_displacement(ts: Seq<Target>, v: int, maxv: int, dt: int)
    requires
        wf_targets(ts),
        0 < dt,
        sum_dt(ts) <= dt,
        forall|i: int| 0 <= i < ts.len() ==> (#[trigger] ts[i]).a % 1000 == 0,
        vels_bounded(ts, v, maxv),
        0 < maxv,
    ensures
        axis_result(ts, v, maxv, dt).2 == ds_after(ts, v) + tdiv(
            vel_after(ts, v) * (dt - sum_dt(ts)),
            1000,
        ),
    decreases ts.len(),
{
    lemma_exact_velocity(ts, v, maxv, dt);
    if ts.len() == 0 {
    } else {
        let t0 = ts[0];
        assert(crate::kinematics::target_wf(t0));
        assert(wf_targets(ts.drop_first())) by {
            assert(forall|i: int|
                0 <= i < ts.len() - 1 ==> ts.drop_first()[i] == #[trigger] ts[i + 1]);
        }
        assert(forall|i: int|
            0 <= i < ts.drop_first().len() ==> (#[trigger] ts.drop_first()[i]).a % 1000
                == 0) by {
            assert(forall|i: int|
                0 <= i < ts.len() - 1 ==> ts.drop_first()[i] == #[trigger] ts[i + 1]);
        }
        lemma_sum_dt_first(ts);
        lemma_sum_dt_nonneg_pub(ts.drop_first());
        let used = t0.dt as int;
        let big0 = t0.a / 1000;
        assert(t0.a == 1000 * big0) by {
            vstd::arithmetic::div_mod::lemma_fundamental_div_mod(t0.a as int, 1000);
        }
        let dv = tdiv(t0.a * used, 1000);
        assert(dv == big0 * used) by {
            assert(t0.a * used == 1000 * (big0 * used)) by (nonlinear_arith)
                requires
                    t0.a == 1000 * big0,
            ;
            lemma_div_thousand_exact(big0 * used);
        }
        let vn_raw = v + dv;
        assert(vels_bounded(ts.drop_first(), v + (ts[0].a / 1000) * ts[0].dt, maxv));
        assert(v + (ts[0].a / 1000) * ts[0].dt == vn_raw);
        assert(vels_bounded(ts.drop_first(), vn_raw, maxv));
        assert(abs_i(vn_raw) <= maxv);
        assert(clamp_i(vn_raw, maxv) == vn_raw);
        let rest = axis_result(ts.drop_first(), vn_raw, maxv, dt - used);
        assert(axis_result(ts, v, maxv, dt) == (
            rest.0,
            rest.1,
            tdiv((v + vn_raw) * used, 2000) + rest.2,
        ));
        if dt - used > 0 {
            lemma_exact_displacement(ts.drop_first(), vn_raw, maxv, dt - used);
            lemma_exact_velocity(ts.drop_first(), vn_raw, maxv, dt - used);
        } else {
            assert(sum_dt(ts.drop_first()) == 0);
            lemma_ds_after_zero(ts.drop_first(), vn_raw);
            if ts.drop_first().len() == 0 {
                assert(rest.2 == tdiv(vn_raw * 0, 1000));
                assert(vn_raw * 0 == 0) by (nonlinear_arith);
                assert(tdiv(0, 1000) == 0);
            } else {
                assert(rest == (ts.drop_first(), vn_raw, 0int));
            }
            assert(vel_after(ts, v) * (dt - sum_dt(ts)) == vel_after(ts, v) * 0);
            assert(vel_after(ts, v) * 0 == 0) by (nonlinear_arith);
            assert(tdiv(0, 1000) == 0);
        }
    }
}

/// Whole-milli accelerations throughout the profile.
pub open spec fn milli_accels(ts: Seq<Target>) -> bool {
    forall|i: int| 0 <= i < ts.len() ==> (#[trigger] ts[i]).a % 1000 == 0
}

/// Repeated integration tracks the profile exactly: one tick of any length
/// leaves a remaining profile that still has whole-milli accelerations and
/// bounded velocities, and that — chained from the new tracked velocity —
/// still converges on the same final velocity.  Iterating this step over any
/// sequence of ticks therefore reproduces `vel_after` of the original
/// profile, while the time law empties the list once the ticks cover it.
pub proof fn lemma_exact_velocity_step(ts: Seq<Target>, v: int, maxv: int, dt: int)
    requires
        wf_targets(ts),
        0 < dt,
        milli_accels(ts),
        vels_bounded(ts, v, maxv),
        0 < maxv,
    ensures
        ({
            let (tsf, vf, dsf) = axis_result(ts, v, maxv, dt);
            &&& wf_targets(tsf)
            &&& milli_accels(tsf)
            &&& vels_bounded(tsf, vf, maxv)
            &&& vel_after(tsf, vf) == vel_after(ts, v)
            &&& (tsf.len() == 0 ==> vf == vel_after(ts, v))
        }),
    decreases ts.len(),
{
    if ts.len() == 0 {
    } else {
        let t0 = ts[0];
        assert(crate::kinematics::target_wf(t0));
        assert(wf_targets(ts.drop_first()) && milli_accels(ts.drop_first())) by {
            assert(forall|i: int|
                0 <= i < ts.len() - 1 ==> ts.drop_first()[i] == #[trigger] ts[i + 1]);
        }
        let big0 = t0.a / 1000;
        assert(t0.a == 1000 * big0) by {
            vstd::arithmetic::div_mod::lemma_fundamental_div_mod(t0.a as int, 1000);
        }
        let used = if t0.dt < 0 {
            0int
        } else if t0.dt < dt {
            t0.dt as int
        } else {
            dt
        };
        let dv = tdiv(t0.a * used, 1000);
        assert(dv == big0 * used) by {
            assert(t0.a * used == 1000 * (big0 * used)) by (nonlinear_arith)
                requires
                    t0.a == 1000 * big0,
            ;
            lemma_div_thousand_exact(big0 * used);
        }
        let endpoint = v + big0 * (t0.dt as int);
        assert(vels_bounded(ts.drop_first(), v + (ts[0].a / 1000) * ts[0].dt, maxv));
        assert(v + (ts[0].a / 1000) * ts[0].dt == endpoint);
        assert(abs_i(endpoint) <= maxv);
        let vn_raw = v + dv;
        // The mid-segment velocity lies between the segment's endpoints.
        assert(abs_i(vn_raw) <= maxv) by {
            assert((0 <= big0 * used <= big0 * (t0.dt as int)) || (big0 * (t0.dt as int) <= big0
                * used <= 0)) by (nonlinear_arith)
                requires
                    0 <= used <= t0.dt,
            ;
        }
        assert(clamp_i(vn_raw, maxv) == vn_raw);
        if t0.dt <= dt {
            let rest = axis_result(ts.drop_first(), vn_raw, maxv, dt - used);
            assert(axis_result(ts, v, maxv, dt) == (
                rest.0,
                rest.1,
                tdiv((v + vn_raw) * used, 2000) + rest.2,
            ));
            assert(vn_raw == endpoint);
            if dt - used > 0 {
                lemma_exact_velocity_step(ts.drop_first(), vn_raw, maxv, dt - used);
            } else {
                assert(rest == (ts.drop_first(), vn_raw, 0int)) by {
                    if ts.drop_first().len() == 0 {
                        assert(rest.0 =~= ts.drop_first());
                        assert(vn_raw * 0 == 0) by (nonlinear_arith);
                        assert(tdiv(0, 1000) == 0);
                    }
                }
            }
        } else {
            let t_rem = (t0.dt as int) - used;
            let tsf = ts.update(0, Target { a: t0.a, dt: t_rem as i64 });
            assert(axis_result(ts, v, maxv, dt) == (tsf, vn_raw, tdiv((v + vn_raw) * used, 2000)));
            assert(wf_targets(tsf) && milli_accels(tsf)) by {
                assert(forall|i: int| 1 <= i < ts.len() ==> tsf[i] == #[trigger] ts[i]);
                assert(crate::kinematics::target_wf(tsf[0]));
                assert(tsf[0].a == t0.a);
            }
            assert(tsf.drop_first() =~= ts.drop_first());
            // Consuming the rest of the split segment reaches the same
            // endpoint, so the chained profile is unchanged.
            assert(vn_raw + (tsf[0].a / 1000) * tsf[0].dt == endpoint) by {
                assert(big0 * used + big0 * t_rem == big0 * (t0.dt as int)) by (nonlinear_arith)
                    requires
                        used + t_rem == t0.dt as int,
                ;
            }
            assert(vels_bounded(tsf, vn_raw, maxv));
            assert(vel_after(tsf, vn_raw) == vel_after(ts.drop_first(), endpoint));
            assert(vel_after(ts, v) == vel_after(ts.drop_first(), endpoint));
        }
    }
}

/// The ramp's landing point: for a whole-milli maximum acceleration, the
/// chained profile velocity of a ramp lies within one second's worth of
/// acceleration of the target.  Together with the per-tick step law — which
/// keeps the chained velocity constant across ticks of any length and makes
/// the tracked velocity equal it the moment the list empties — this gives
/// the ramp's convergence under repeated integration without further
/// hypotheses on the tick lengths.
pub proof fn lemma_ramp_landing(v: int, max_a: int, u: int)
    requires
        max_a % 1000 == 0,
        1000 <= max_a <= ACC_LIMIT,
        abs_i(u) <= VEL_LIMIT,
        abs_i(v) <= VEL_LIMIT,
    ensures
        abs_i(vel_after(solve_v(v, max_a, u), u) - v) < tdiv(max_a, 1000),
        milli_accels(solve_v(v, max_a, u)),
        wf_targets(solve_v(v, max_a, u)),
{
    let a = csign(max_a, v - u);
    let t_raw = tdiv_g(1000 * (v - u), a);
    let big = max_a / 1000;
    assert(max_a == 1000 * big) by {
        vstd::arithmetic::div_mod::lemma_fundamental_div_mod(max_a, 1000);
    }
    let d = abs_i(v - u);
    assert(t_raw == tdiv(d, big)) by {
        if v >= u {
            assert(a == max_a);
            assert(1000 * (v - u) == 1000 * d);
            lemma_div_thousand_cancel(d, big);
        } else {
            assert(a == -max_a);
            assert(-(1000 * (v - u)) == 1000 * d);
            lemma_div_thousand_cancel(d, big);
        }
    }
    assert(0 <= t_raw) by {
        vstd::arithmetic::div_mod::lemma_div_pos_is_pos(d, big);
    }
    assert(t_raw <= d) by {
        vstd::arithmetic::div_mod::lemma_div_nonincreasing(d, big);
    }
    let seg = mk_target(a, t_raw);
    assert(seg.a == a && seg.dt == t_raw) by {
        assert(d <= 2 * (VEL_LIMIT as int));
        assert(t_raw <= crate::kinematics::TIME_LIMIT);
    }
    let ts = solve_v(v, max_a, u);
    assert(ts =~= seq![seg]);
    let rem = d % big;
    assert(big * tdiv(d, big) == d - rem) by {
        vstd::arithmetic::div_mod::lemma_fundamental_div_mod(d, big);
    }
    assert(0 <= rem < big) by {
        vstd::arithmetic::div_mod::lemma_mod_division_less_than_divisor(d, big);
    }
    assert(a / 1000 == (if v >= u {
        big
    } else {
        -big
    })) by {
        vstd::arithmetic::div_mod::lemma_div_multiples_vanish(big, 1000);
        vstd::arithmetic::div_mod::lemma_div_multiples_vanish(-big, 1000);
        assert(-max_a == 1000 * (-big));
    }
    assert((a / 1000) * t_raw == (if v >= u {
        d - rem
    } else {
        -(d - rem)
    })) by (nonlinear_arith)
        requires
            a / 1000 == (if v >= u {
                big
            } else {
                -big
            }),
            t_raw == tdiv(d, big),
            big * tdiv(d, big) == d - rem,
    ;
    assert(vel_after(ts, u) == u + (a / 1000) * t_raw) by {
        assert(ts.drop_first() =~= Seq::<Target>::empty());
        assert(vel_after(Seq::<Target>::empty(), u + (ts[0].a / 1000) * ts[0].dt) == u + (
        ts[0].a / 1000) * ts[0].dt);
    }
    assert(milli_accels(ts)) by {
        assert(a % 1000 == 0) by {
            if v < u {
                assert(-max_a == 1000 * (-big) + 0);
                vstd::arithmetic::div_mod::lemma_fundamental_div_mod_converse_mod(
                    -max_a,
                    1000,
                    -big,
                    0,
                );
            }
        }
        assert(ts[0].a == a);
    }
    assert(wf_targets(ts)) by {
        assert(crate::kinematics::target_wf(ts[0]));
    }
}

/// Dividing a thousandfold product by a thousand gives back the factor.
proof fn lemma_div_thousand_exact(x: int)
    ensures
        tdiv(1000 * x, 1000) == x,
{
    if x >= 0 {
        vstd::arithmetic::div_mod::lemma_div_multiples_vanish(x, 1000);
    } else {
        vstd::arithmetic::div_mod::lemma_div_multiples_vanish(-x, 1000);
        assert(-(1000 * x) == 1000 * (-x)) by (nonlinear_arith);
    }
}

/// Cancelling the common factor of a thousand in a truncating division.
proof fn lemma_div_thousand_cancel(d: int, big: int)
    requires
        0 <= d,
        0 < big,
    ensures
        tdiv(1000 * d, 1000 * big) == tdiv(d, big),
    decreases 0int,
{
    vstd::arithmetic::div_mod::lemma_div_denominator(1000 * d, 1000, big);
    vstd::arithmetic::div_mod::lemma_div_multiples_vanish(d, 1000);
    assert((1000 * d) / (1000 * big) == ((1000 * d) / 1000) / big);
    assert((1000 * d) / 1000 == d);
    assert(0 <= 1000 * d) by (nonlinear_arith)
        requires
            0 <= d,
    ;
    assert(0 < 1000 * big) by (nonlinear_arith)
        requires
            0 < big,
    ;
}

} // verus!
