//! The per-axis motion solver: turns a velocity / displacement / duration
//! target into a list of constant-acceleration segments, and integrates those
//! segments tick by tick.
//!
//! Every executable step is pinned to a specification-level formula over the
//! same integers, so the solver's arithmetic is exactly described by its
//! contract.

use vstd::prelude::*;

use crate::num::{abs_i, clamp128, isqrt, lemma_tdiv_abs, mul_i64, sqrt_floor, tdiv, tdiv128};
use crate::pos::Pos2;
use crate::world_data::{ModelMotion, ACC_LIMIT, VEL_LIMIT};

verus! {

/// Segment durations stay within this many milliseconds.
pub const TIME_LIMIT: i64 = 4_000_000_000_000_000;

/// One tick lasts at most this many milliseconds.
pub const TICK_MAX: i64 = 3_600_000;

/// Displacement targets stay within this many micro-units.
pub const DS_LIMIT: i64 = 4_000_000_000_000_000;

/// Duration targets stay within this many milliseconds.
pub const DUR_LIMIT: i64 = 100_000_000;

/// A rejected motion target.
#[derive(Clone, Copy, Debug, PartialEq, Eq, Structural)]
pub enum KinematicsError {
    /// No velocity, displacement or duration was given.
    NoTarget,
    /// The given combination of targets has no solver.
    Unsupported,
    /// The geometry of the request admits no two-phase profile.
    Degenerate,
}

/// One pending acceleration segment: acceleration in micro-units per second
/// squared, duration in milliseconds.
#[derive(Clone, Copy, Debug, PartialEq, Eq, Structural)]
pub struct Target {
    pub a: i64,
    pub dt: i64,
}

/// A segment the integrator accepts.
pub open spec fn target_wf(t: Target) -> bool {
    abs_i(t.a as int) <= ACC_LIMIT && 0 <= t.dt <= TIME_LIMIT
}

/// Every segment of the list is acceptable.
pub open spec fn wf_targets(ts: Seq<Target>) -> bool {
    forall|i: int| 0 <= i < ts.len() ==> target_wf(#[trigger] ts[i])
}

/// Truncating division with a divisor of either sign.
pub open spec fn tdiv_g(a: int, b: int) -> int
    recommends
        b != 0,
{
    if b > 0 {
        tdiv(a, b)
    } else {
        tdiv(-a, -b)
    }
}

/// The magnitude of `x` carrying the sign of `sign` (nonnegative counts as
/// positive).
pub open spec fn csign(x: int, sign: int) -> int {
    if sign >= 0 {
        abs_i(x)
    } else {
        -abs_i(x)
    }
}

/// Clamps `v` into `[-m, m]`.
pub open spec fn clamp_i(v: int, m: int) -> int {
    if v < -m {
        -m
    } else if v > m {
        m
    } else {
        v
    }
}

/// A segment with its acceleration and duration forced into range.
pub open spec fn mk_target(a: int, t: int) -> Target {
    Target {
        a: (if a < -ACC_LIMIT {
            -ACC_LIMIT as int
        } else if a > ACC_LIMIT {
            ACC_LIMIT as int
        } else {
            a
        }) as i64,
        dt: (if t < 0 {
            0
        } else if t > TIME_LIMIT {
            TIME_LIMIT as int
        } else {
            t
        }) as i64,
    }
}

/// Single constant ramp toward the target velocity `v` from `u`.
pub open spec fn solve_v(v: int, max_a: int, u: int) -> Seq<Target> {
    let a = csign(max_a, v - u);
    seq![mk_target(a, tdiv_g(1000 * (v - u), a))]
}

/// Velocity-capped trapezoidal profile toward `(v, ds)`, falling back to a
/// triangular profile when the cap cannot be reached.
pub open spec fn solve_v_ds(v: int, ds: int, max_v: int, max_a: int, u: int) -> Result<
    Seq<Target>,
    KinematicsError,
> {
    let mv = csign(max_v, ds);
    let aa = csign(max_a, mv - u);
    let da = csign(max_a, v - mv);
    let macc = tdiv_g(mv * mv - u * u, 2 * aa);
    let mdec = tdiv_g(v * v - mv * mv, 2 * da);
    if (macc + mdec > 0 && ds > macc + mdec) || (macc + mdec < 0 && ds < macc + mdec) {
        Ok(
            seq![
                mk_target(aa, tdiv_g(1000 * (mv - u), aa)),
                mk_target(0, tdiv_g(1000 * (ds - macc - mdec), mv)),
                mk_target(da, tdiv_g(1000 * (v - mv), da)),
            ],
        )
    } else if aa == da {
        Err(KinematicsError::Degenerate)
    } else {
        let rad = tdiv_g(aa * (v * v - 2 * da * ds) - da * (u * u), aa - da);
        if rad < 0 {
            Err(KinematicsError::Degenerate)
        } else {
            let w = csign(sqrt_floor(rad), ds);
            Ok(
                seq![
                    mk_target(aa, tdiv_g(1000 * (w - u), aa)),
                    mk_target(da, tdiv_g(1000 * (v - w), da)),
                ],
            )
        }
    }
}

/// Closed-form two-phase profile reaching `(v, ds)` in exactly `dt`
/// milliseconds, by quadratic root selection sign-matched to `ds`.
pub open spec fn solve_v_ds_dt(v: int, ds: int, dt: int, u: int) -> Seq<Target> {
    let t1 = tdiv(dt * v, 1000);
    let t2 = tdiv(dt * u, 1000);
    let rad = 2 * ((t1 - ds) * (t1 - ds) + (t2 - ds) * (t2 - ds));
    let sc = csign(sqrt_floor(rad), ds);
    let w = tdiv(1000 * (2 * ds + sc), 2 * dt);
    let a = tdiv_g((2 * ds + sc - t1 - t2) * 1000000, dt * dt);
    if a == 0 {
        seq![mk_target(0, dt)]
    } else {
        seq![
            mk_target(a, tdiv_g(1000 * (w - u), a)),
            mk_target(-a, tdiv_g(1000 * (v - w), -a)),
        ]
    }
}

/// What the solver produces for each supported target shape, and which
/// shapes it rejects.
pub open spec fn solve_targets(
    v: Option<i64>,
    ds: Option<i64>,
    dt: Option<i64>,
    max_v: int,
    max_a: int,
    u: int,
) -> Result<Seq<Target>, KinematicsError> {
    match (v, ds, dt) {
        (Some(v), Some(ds), Some(dt)) => Ok(solve_v_ds_dt(v as int, ds as int, dt as int, u)),
        (Some(v), Some(ds), None) => solve_v_ds(v as int, ds as int, max_v, max_a, u),
        (Some(v), None, None) => Ok(solve_v(v as int, max_a, u)),
        (None, None, _) => Err(KinematicsError::NoTarget),
        _ => Err(KinematicsError::Unsupported),
    }
}

fn csign_fp(x: i64, sign: i128) -> (r: i64)
    requires
        x > i64::MIN,
    ensures
        r == csign(x as int, sign as int),
{
    if sign >= 0 {
        if x >= 0 {
            x
        } else {
            -x
        }
    } else {
        if x >= 0 {
            -x
        } else {
            x
        }
    }
}

fn tdiv128_g(a: i128, b: i128) -> (r: i128)
    requires
        b != 0,
        a > i128::MIN,
        b > i128::MIN,
    ensures
        r == tdiv_g(a as int, b as int),
        abs_i(r as int) <= abs_i(a as int),
{
    if b > 0 {
        tdiv128(a, b)
    } else {
        tdiv128(-a, -b)
    }
}

fn mk_target_fp(a: i128, t: i128) -> (r: Target)
    ensures
        r == mk_target(a as int, t as int),
        target_wf(r),
{
    Target { a: clamp128(a, -ACC_LIMIT, ACC_LIMIT), dt: clamp128(t, 0, TIME_LIMIT) }
}

impl Target {
    /// Solves a motion target into acceleration segments, or says why the
    /// request is rejected.
    pub fn new(
        v: Option<i64>,
        ds: Option<i64>,
        dt: Option<i64>,
        max_v: i64,
        max_a: i64,
        u: i64,
    ) -> (r: Result<Vec<Target>, KinematicsError>)
        requires
            abs_i(u as int) <= VEL_LIMIT,
            1 <= max_a <= ACC_LIMIT,
            1 <= max_v <= VEL_LIMIT,
            v matches Some(x) ==> abs_i(x as int) <= VEL_LIMIT,
            ds matches Some(x) ==> abs_i(x as int) <= DS_LIMIT,
            dt matches Some(x) ==> 1 <= x <= DUR_LIMIT,
        ensures
            ({
                let s = solve_targets(v, ds, dt, max_v as int, max_a as int, u as int);
                match r {
                    Ok(ts) => s matches Ok(ss) && ts@ == ss && wf_targets(ts@),
                    Err(e) => s matches Err(se) && e == se,
                }
            }),
    {
        match (v, ds, dt) {
            (Some(v), Some(ds), Some(dt)) => Ok(Self::new_v_ds_dt(v, ds, dt, u)),
            (Some(v), Some(ds), None) => Self::new_v_ds(v, ds, max_v, max_a, u),
            (Some(v), None, None) => Ok(Self::new_v(v, max_a, u)),
            (None, None, _) => Err(KinematicsError::NoTarget),
            _ => Err(KinematicsError::Unsupported),
        }
    }

    fn new_v(v: i64, max_a: i64, u: i64) -> (r: Vec<Target>)
        requires
            abs_i(u as int) <= VEL_LIMIT,
            1 <= max_a <= ACC_LIMIT,
            abs_i(v as int) <= VEL_LIMIT,
        ensures
            r@ == solve_v(v as int, max_a as int, u as int),
            wf_targets(r@),
    {
        let vd: i128 = (v as i128) - (u as i128);
        let a = csign_fp(max_a, vd);
        let t = tdiv128_g(1000 * vd, a as i128);
        let seg = mk_target_fp(a as i128, t);
        let mut out: Vec<Target> = Vec::new();
        out.push(seg);
        proof {
            assert(out@ =~= solve_v(v as int, max_a as int, u as int));
        }
        out
    }

    fn new_v_ds(v: i64, ds: i64, max_v: i64, max_a: i64, u: i64) -> (r: Result<
        Vec<Target>,
        KinematicsError,
    >)
        requires
            abs_i(u as int) <= VEL_LIMIT,
            1 <= max_a <= ACC_LIMIT,
            1 <= max_v <= VEL_LIMIT,
            abs_i(v as int) <= VEL_LIMIT,
            abs_i(ds as int) <= DS_LIMIT,
        ensures
            ({
                let s = solve_v_ds(v as int, ds as int, max_v as int, max_a as int, u as int);
                match r {
                    Ok(ts) => s matches Ok(ss) && ts@ == ss && wf_targets(ts@),
                    Err(e) => s matches Err(se) && e == se,
                }
            }),
    {
        let mv: i64 = csign_fp(max_v, ds as i128);
        let aa: i64 = csign_fp(max_a, (mv as i128) - (u as i128));
        let da: i64 = csign_fp(max_a, (v as i128) - (mv as i128));
        proof {
            assert(abs_i((mv as int) * (mv as int)) <= (VEL_LIMIT as int) * VEL_LIMIT && abs_i(
                (u as int) * (u as int),
            ) <= (VEL_LIMIT as int) * VEL_LIMIT && abs_i((v as int) * (v as int)) <= (
            VEL_LIMIT as int) * VEL_LIMIT) by (nonlinear_arith)
                requires
                    abs_i(mv as int) <= VEL_LIMIT,
                    abs_i(u as int) <= VEL_LIMIT,
                    abs_i(v as int) <= VEL_LIMIT,
            ;
        }
        let macc: i128 = tdiv128_g(
            (mv as i128) * (mv as i128) - (u as i128) * (u as i128),
            2 * (aa as i128),
        );
        let mdec: i128 = tdiv128_g(
            (v as i128) * (v as i128) - (mv as i128) * (mv as i128),
            2 * (da as i128),
        );
        let both: i128 = macc + mdec;
        if (both > 0 && (ds as i128) > both) || (both < 0 && (ds as i128) < both) {
            let s1 = mk_target_fp(aa as i128, tdiv128_g(1000 * ((mv as i128) - (u as i128)),
                aa as i128));
            let s2 = mk_target_fp(0, tdiv128_g(1000 * ((ds as i128) - both), mv as i128));
            let s3 = mk_target_fp(da as i128, tdiv128_g(1000 * ((v as i128) - (mv as i128)),
                da as i128));
            let mut out: Vec<Target> = Vec::new();
            out.push(s1);
            out.push(s2);
            out.push(s3);
            proof {
                let ss = solve_v_ds(
                    v as int,
                    ds as int,
                    max_v as int,
                    max_a as int,
                    u as int,
                )->Ok_0;
                assert(out@ =~= ss);
            }
            Ok(out)
        } else if aa == da {
            Err(KinematicsError::Degenerate)
        } else {
            let vv: i128 = mul_i64(v, v);
            let uu: i128 = mul_i64(u, u);
            let dads: i128 = mul_i64(da, ds);
            proof {
                assert(abs_i(vv as int) <= (VEL_LIMIT as int) * VEL_LIMIT && abs_i(uu as int) <= (
                VEL_LIMIT as int) * VEL_LIMIT && abs_i(dads as int) <= (ACC_LIMIT as int)
                    * DS_LIMIT) by (nonlinear_arith)
                    requires
                        vv == (v as int) * (v as int),
                        uu == (u as int) * (u as int),
                        dads == (da as int) * (ds as int),
                        abs_i(da as int) <= ACC_LIMIT,
                        abs_i(ds as int) <= DS_LIMIT,
                        abs_i(u as int) <= VEL_LIMIT,
                        abs_i(v as int) <= VEL_LIMIT,
                ;
            }
            let inner: i128 = vv - 2 * dads;
            proof {
                assert(abs_i((aa as int) * (inner as int)) <= (ACC_LIMIT as int) * ((
                VEL_LIMIT as int) * VEL_LIMIT + 2 * ((ACC_LIMIT as int) * DS_LIMIT)) && abs_i(
                    (da as int) * (uu as int),
                ) <= (ACC_LIMIT as int) * ((VEL_LIMIT as int) * VEL_LIMIT)) by (nonlinear_arith)
                    requires
                        abs_i(aa as int) <= ACC_LIMIT,
                        abs_i(da as int) <= ACC_LIMIT,
                        abs_i(inner as int) <= (VEL_LIMIT as int) * VEL_LIMIT + 2 * ((
                        ACC_LIMIT as int) * DS_LIMIT),
                        abs_i(uu as int) <= (VEL_LIMIT as int) * VEL_LIMIT,
                ;
            }
            let num: i128 = (aa as i128) * inner - (da as i128) * uu;
            proof {
                assert(num == (aa as int) * ((v as int) * (v as int) - 2 * (da as int) * (
                ds as int)) - (da as int) * ((u as int) * (u as int))) by (nonlinear_arith)
                    requires
                        num == (aa as int) * (inner as int) - (da as int) * (uu as int),
                        inner == vv - 2 * dads,
                        vv == (v as int) * (v as int),
                        uu == (u as int) * (u as int),
                        dads == (da as int) * (ds as int),
                ;
            }
            let rad: i128 = tdiv128_g(num, (aa as i128) - (da as i128));
            if rad < 0 {
                Err(KinematicsError::Degenerate)
            } else {
                let root = isqrt(rad as u128);
                proof {
                    assert((root as int) <= 100_000_000_000_000_000int) by (nonlinear_arith)
                        requires
                            (root as int) * (root as int) <= rad,
                            0 <= root,
                            rad <= 10_000_000_000_000_000_000_000_000_000_000_000int,
                    ;
                }
                let w: i64 = csign_fp(root as i64, ds as i128);
                let s1 = mk_target_fp(aa as i128, tdiv128_g(1000 * ((w as i128) - (u as i128)),
                    aa as i128));
                let s2 = mk_target_fp(da as i128, tdiv128_g(1000 * ((v as i128) - (w as i128)),
                    da as i128));
                let mut out: Vec<Target> = Vec::new();
                out.push(s1);
                out.push(s2);
                proof {
                    let ss = solve_v_ds(
                        v as int,
                        ds as int,
                        max_v as int,
                        max_a as int,
                        u as int,
                    )->Ok_0;
                    assert(out@ =~= ss);
                }
                Ok(out)
            }
        }
    }

    fn new_v_ds_dt(v: i64, ds: i64, dt: i64, u: i64) -> (r: Vec<Target>)
        requires
            abs_i(u as int) <= VEL_LIMIT,
            abs_i(v as int) <= VEL_LIMIT,
            abs_i(ds as int) <= DS_LIMIT,
            1 <= dt <= DUR_LIMIT,
        ensures
            r@ == solve_v_ds_dt(v as int, ds as int, dt as int, u as int),
            wf_targets(r@),
    {
        proof {
            assert(abs_i((dt as int) * (v as int)) <= (DUR_LIMIT as int) * VEL_LIMIT && abs_i(
                (dt as int) * (u as int),
            ) <= (DUR_LIMIT as int) * VEL_LIMIT) by (nonlinear_arith)
                requires
                    1 <= dt <= DUR_LIMIT,
                    abs_i(v as int) <= VEL_LIMIT,
                    abs_i(u as int) <= VEL_LIMIT,
            ;
        }
        let t1: i128 = tdiv128((dt as i128) * (v as i128), 1000);
        let t2: i128 = tdiv128((dt as i128) * (u as i128), 1000);
        proof {
            lemma_tdiv_abs((dt as int) * (v as int), 1000, 100_000_000_000_000_000int);
            lemma_tdiv_abs((dt as int) * (u as int), 1000, 100_000_000_000_000_000int);
            assert(0 <= (t1 - ds) * (t1 - ds) <= 120_000_000_000_000_000_000_000_000_000_000_000int
                && 0 <= (t2 - ds) * (t2 - ds)
                <= 120_000_000_000_000_000_000_000_000_000_000_000int) by (nonlinear_arith)
                requires
                    abs_i(t1 as int) <= 100_000_000_000_000_000int,
                    abs_i(t2 as int) <= 100_000_000_000_000_000int,
                    abs_i(ds as int) <= DS_LIMIT,
            ;
        }
        let rad: i128 = 2 * ((t1 - (ds as i128)) * (t1 - (ds as i128)) + (t2 - (ds as i128)) * (
        t2 - (ds as i128)));
        let root = isqrt(rad as u128);
        proof {
            assert((root as int) <= 1_000_000_000_000_000_000int) by (nonlinear_arith)
                requires
                    (root as int) * (root as int) <= rad,
                    0 <= root,
                    rad <= 480_000_000_000_000_000_000_000_000_000_000_000int,
            ;
        }
        let sc: i64 = csign_fp(root as i64, ds as i128);
        proof {
            assert(1 <= (dt as int) * (dt as int) <= 10_000_000_000_000_000int)
                by (nonlinear_arith)
                requires
                    1 <= dt <= DUR_LIMIT,
            ;
        }
        let w: i128 = tdiv128(1000 * (2 * (ds as i128) + (sc as i128)), 2 * (dt as i128));
        let a: i128 = tdiv128_g(
            (2 * (ds as i128) + (sc as i128) - t1 - t2) * 1000000,
            (dt as i128) * (dt as i128),
        );
        let mut out: Vec<Target> = Vec::new();
        if a == 0 {
            out.push(mk_target_fp(0, dt as i128));
        } else {
            proof {
                crate::num::lemma_tdiv_shrinks(
                    1000 * (2 * (ds as int) + (sc as int)),
                    2 * (dt as int),
                );
            }
            let s1 = mk_target_fp(a, tdiv128_g(1000 * (w - (u as i128)), a));
            let s2 = mk_target_fp(-a, tdiv128_g(1000 * ((v as i128) - w), -a));
            out.push(s1);
            out.push(s2);
        }
        proof {
            assert(out@ =~= solve_v_ds_dt(v as int, ds as int, dt as int, u as int));
        }
        out
    }

    /// Total duration of the given segments, saturated at `TIME_LIMIT`.
    pub fn sum_t(targets: &Vec<Target>) -> (r: i64)
        requires
            wf_targets(targets@),
        ensures
            r == if sum_dt(targets@) <= TIME_LIMIT {
                sum_dt(targets@)
            } else {
                TIME_LIMIT as int
            },
            0 <= r <= TIME_LIMIT,
    {
        let mut acc: i128 = 0;
        let mut i: usize = 0;
        proof {
            lemma_sum_dt_nonneg(targets@, 0);
        }
        while i < targets.len()
            invariant
                0 <= i <= targets@.len(),
                wf_targets(targets@),
                acc == sum_dt(targets@.take(i as int)),
                0 <= acc <= (i as int) * TIME_LIMIT,
            decreases targets@.len() - i,
        {
            proof {
                assert(targets@.take(i as int + 1).drop_last() =~= targets@.take(i as int));
                assert(targets@.take(i as int + 1).last() == targets@[i as int]);
                lemma_sum_dt_nonneg(targets@.take(i as int + 1), i as int + 1);
                assert((i as int) * TIME_LIMIT + TIME_LIMIT == (i as int + 1) * TIME_LIMIT)
                    by (nonlinear_arith);
            }
            acc = acc + (targets[i].dt as i128);
            i = i + 1;
        }
        proof {
            assert(targets@.take(targets@.len() as int) =~= targets@);
        }
        if acc > TIME_LIMIT as i128 {
            TIME_LIMIT
        } else {
            acc as i64
        }
    }
}

/// One integration pass over an axis: consumes segment time against the tick
/// duration, updates the velocity (clamped to the axis limit) and accumulates
/// the trapezoidal displacement; once the list is empty the remainder coasts,
/// also clamped to the axis limit.
pub open spec fn axis_result(ts: Seq<Target>, v: int, maxv: int, dt: int) -> (Seq<Target>, int, int)
    decreases ts.len(),
        (if dt > 0 {
            dt
        } else {
            0
        }),
{
    if ts.len() == 0 {
        let vc = clamp_i(v, maxv);
        (ts, vc, tdiv(vc * dt, 1000))
    } else if dt <= 0 {
        (ts, v, 0)
    } else {
        let t0 = ts[0];
        let used = if t0.dt < 0 {
            0
        } else if t0.dt < dt {
            t0.dt as int
        } else {
            dt
        };
        let vn = clamp_i(v + tdiv(t0.a * used, 1000), maxv);
        let dsp = tdiv((v + vn) * used, 2000);
        if t0.dt <= dt {
            let rest = axis_result(ts.drop_first(), vn, maxv, dt - used);
            (rest.0, rest.1, dsp + rest.2)
        } else {
            (ts.update(0, Target { a: t0.a, dt: (t0.dt - used) as i64 }), vn, dsp)
        }
    }
}

/// Integration keeps the segments acceptable, the velocity clamped to the
/// axis limit, and the displacement within one tick's worth of maximum
/// velocity.
pub proof fn lemma_axis_result_props(ts: Seq<Target>, v: int, maxv: int, dt: int)
    requires
        wf_targets(ts),
        0 < maxv <= VEL_LIMIT,
        abs_i(v) <= VEL_LIMIT,
        0 <= dt,
    ensures
        ({
            let (tsf, vf, dsf) = axis_result(ts, v, maxv, dt);
            wf_targets(tsf) && abs_i(vf) <= VEL_LIMIT && abs_i(dsf) <= dt * VEL_LIMIT && (0 < dt
                ==> abs_i(vf) <= maxv)
        }),
    decreases ts.len(),
{
    if ts.len() == 0 {
        let vc = clamp_i(v, maxv);
        assert(abs_i(vc * dt) <= 1000 * (dt * (VEL_LIMIT as int))) by (nonlinear_arith)
            requires
                abs_i(vc) <= VEL_LIMIT,
                0 <= dt,
        ;
        assert(0 <= dt * (VEL_LIMIT as int)) by (nonlinear_arith)
            requires
                0 <= dt,
        ;
        lemma_tdiv_abs(vc * dt, 1000, dt * (VEL_LIMIT as int));
    } else if dt <= 0 {
        assert(0 <= dt * (VEL_LIMIT as int)) by (nonlinear_arith)
            requires
                0 <= dt,
        ;
    } else {
        let t0 = ts[0];
        assert(target_wf(t0));
        let used = if t0.dt < 0 {
            0
        } else if t0.dt < dt {
            t0.dt as int
        } else {
            dt
        };
        let vn = clamp_i(v + tdiv(t0.a * used, 1000), maxv);
        let dsp = tdiv((v + vn) * used, 2000);
        assert(abs_i((v + vn) * used) <= 2000 * (used * (VEL_LIMIT as int)) && 0 <= used * (
        VEL_LIMIT as int)) by (nonlinear_arith)
            requires
                abs_i(v) <= VEL_LIMIT,
                abs_i(vn) <= VEL_LIMIT,
                0 <= used,
        ;
        lemma_tdiv_abs((v + vn) * used, 2000, used * (VEL_LIMIT as int));
        if t0.dt <= dt {
            assert(wf_targets(ts.drop_first())) by {
                assert(forall|i: int|
                    0 <= i < ts.len() - 1 ==> ts.drop_first()[i] == #[trigger] ts[i + 1]);
            }
            lemma_axis_result_props(ts.drop_first(), vn, maxv, dt - used);
            let rest = axis_result(ts.drop_first(), vn, maxv, dt - used);
            assert(used * (VEL_LIMIT as int) + (dt - used) * (VEL_LIMIT as int) == dt * (
            VEL_LIMIT as int)) by (nonlinear_arith);
            if dt - used == 0 {
                assert(rest.1 == vn || rest.1 == clamp_i(vn, maxv));
            }
        } else {
            let tsf = ts.update(0, Target { a: t0.a, dt: (t0.dt - used) as i64 });
            assert(wf_targets(tsf)) by {
                assert(forall|i: int|
                    1 <= i < ts.len() ==> tsf[i] == #[trigger] ts[i]);
                assert(target_wf(tsf[0]));
            }
            assert(used * (VEL_LIMIT as int) <= dt * (VEL_LIMIT as int)) by (nonlinear_arith)
                requires
                    0 <= used <= dt,
            ;
        }
    }
}

/// Integrates one axis for `dt` milliseconds; returns the new velocity and
/// the displacement travelled.
fn axis_tick(targets: &mut Vec<Target>, v0: i64, maxv: i64, dt: i64) -> (r: (i64, i64))
    requires
        wf_targets(old(targets)@),
        abs_i(v0 as int) <= VEL_LIMIT,
        0 < maxv <= VEL_LIMIT,
        0 < dt <= TICK_MAX,
    ensures
        ({
            let (tsf, vf, dsf) = axis_result(old(targets)@, v0 as int, maxv as int, dt as int);
            final(targets)@ == tsf && r.0 == vf && r.1 == dsf
        }),
        wf_targets(final(targets)@),
        abs_i(r.0 as int) <= maxv,
        abs_i(r.1 as int) <= (dt as int) * VEL_LIMIT,
{
    let ghost ts0 = targets@;
    let mut v: i64 = v0;
    let mut dt_left: i64 = dt;
    let mut ds: i64 = 0;
    while targets.len() > 0 && dt_left > 0
        invariant
            wf_targets(targets@),
            abs_i(v as int) <= VEL_LIMIT,
            0 <= dt_left <= dt,
            0 < dt <= TICK_MAX,
            0 < maxv <= VEL_LIMIT,
            abs_i(ds as int) <= ((dt - dt_left) as int) * VEL_LIMIT,
            axis_result(ts0, v0 as int, maxv as int, dt as int) == ({
                let rest = axis_result(targets@, v as int, maxv as int, dt_left as int);
                (rest.0, rest.1, ds + rest.2)
            }),
        decreases targets@.len(), dt_left,
    {
        let ghost pre_ts = targets@;
        let ghost pre_v = v as int;
        let ghost pre_dtl = dt_left as int;
        let ghost pre_ds = ds as int;
        let t0 = targets[0];
        proof {
            assert(target_wf(pre_ts[0]));
        }
        let used: i64 = if t0.dt < dt_left {
            t0.dt
        } else {
            dt_left
        };
        let adv = mul_i64(t0.a, used);
        proof {
            assert(abs_i((t0.a as int) * (used as int)) <= 1000
                * 4_000_000_000_000_000_000int) by (nonlinear_arith)
                requires
                    abs_i(t0.a as int) <= ACC_LIMIT,
                    0 <= used <= TICK_MAX,
            ;
            lemma_tdiv_abs((t0.a as int) * (used as int), 1000, 4_000_000_000_000_000_000int);
        }
        let q = tdiv128(adv, 1000);
        let vn: i64 = clamp128((v as i128) + q, -maxv, maxv);
        proof {
            assert(abs_i(((v as int) + (vn as int)) * (used as int)) <= 2000 * ((used as int) * (
            VEL_LIMIT as int)) && 0 <= (used as int) * (VEL_LIMIT as int)) by (nonlinear_arith)
                requires
                    abs_i(v as int) <= VEL_LIMIT,
                    abs_i(vn as int) <= VEL_LIMIT,
                    0 <= used,
            ;
            lemma_tdiv_abs(
                ((v as int) + (vn as int)) * (used as int),
                2000,
                (used as int) * (VEL_LIMIT as int),
            );
            assert(((dt - dt_left) as int) * VEL_LIMIT + (used as int) * VEL_LIMIT == ((dt
                - dt_left + used) as int) * VEL_LIMIT) by (nonlinear_arith);
            assert(((dt - dt_left + used) as int) * VEL_LIMIT <= (dt as int) * (
            VEL_LIMIT as int)) by (nonlinear_arith)
                requires
                    0 <= used <= dt_left <= dt,
            ;
        }
        let dsp128 = tdiv128(((v as i128) + (vn as i128)) * (used as i128), 2000);
        let dsp: i64 = dsp128 as i64;
        ds = ds + dsp;
        if t0.dt <= dt_left {
            targets.remove(0);
            proof {
                assert(targets@ =~= pre_ts.drop_first());
            }
        } else {
            targets[0] = Target { a: t0.a, dt: t0.dt - used };
        }
        v = vn;
        dt_left = dt_left - used;
        proof {
            let spec_used = if pre_ts[0].dt < 0 {
                0
            } else if pre_ts[0].dt < pre_dtl {
                pre_ts[0].dt as int
            } else {
                pre_dtl
            };
            assert(spec_used == used as int);
            let rest = axis_result(targets@, v as int, maxv as int, dt_left as int);
            assert(axis_result(pre_ts, pre_v, maxv as int, pre_dtl) == (
                rest.0,
                rest.1,
                (dsp as int) + rest.2,
            ));
            assert(wf_targets(targets@)) by {
                if pre_ts[0].dt <= pre_dtl {
                    assert(forall|i: int|
                        0 <= i < pre_ts.len() - 1 ==> targets@[i] == #[trigger] pre_ts[i + 1]);
                } else {
                    assert(forall|i: int|
                        1 <= i < pre_ts.len() ==> targets@[i] == #[trigger] pre_ts[i]);
                    assert(target_wf(targets@[0]));
                }
            }
        }
    }
    if targets.is_empty() {
        v = clamp128(v as i128, -maxv, maxv);
        proof {
            assert(abs_i((v as int) * (dt_left as int)) <= 1000 * ((dt_left as int) * (
            VEL_LIMIT as int)) && 0 <= (dt_left as int) * (VEL_LIMIT as int))
                by (nonlinear_arith)
                requires
                    abs_i(v as int) <= VEL_LIMIT,
                    0 <= dt_left,
            ;
            lemma_tdiv_abs((v as int) * (dt_left as int), 1000, (dt_left as int) * (
            VEL_LIMIT as int));
            assert(((dt - dt_left) as int) * VEL_LIMIT + (dt_left as int) * VEL_LIMIT == (
            dt as int) * (VEL_LIMIT as int)) by (nonlinear_arith);
        }
        let coast = tdiv128((v as i128) * (dt_left as i128), 1000);
        ds = ds + (coast as i64);
    }
    proof {
        assert(((dt - dt_left) as int) * VEL_LIMIT <= (dt as int) * VEL_LIMIT)
            by (nonlinear_arith)
            requires
                0 <= dt_left <= dt,
        ;
        lemma_axis_result_props(ts0, v0 as int, maxv as int, dt as int);
    }
    (v, ds)
}

/// Per-aircraft motion state: the current velocity (horizontal along-path
/// component in `x`, vertical in `y`) and the pending acceleration segments
/// of each axis.
#[derive(Clone, Debug)]
pub struct Kinematics {
    pub x_target: Vec<Target>,
    pub y_target: Vec<Target>,
    pub v: Pos2,
}

/// The effective velocity cap: an explicit override or the model limit.
pub open spec fn eff_max(o: Option<i64>, d: i64) -> i64 {
    match o {
        Some(m) => m,
        None => d,
    }
}

impl Kinematics {
    /// Acceptable segments on both axes and a bounded velocity.
    pub open spec fn wf(self) -> bool {
        &&& wf_targets(self.x_target@)
        &&& wf_targets(self.y_target@)
        &&& abs_i(self.v.x as int) <= VEL_LIMIT
        &&& abs_i(self.v.y as int) <= VEL_LIMIT
    }

    /// A coasting state: no pending segments, zero velocity.
    pub fn new() -> (r: Kinematics)
        ensures
            r.wf(),
            r.x_target@.len() == 0,
            r.y_target@.len() == 0,
            r.v == (Pos2 { x: 0, y: 0 }),
    {
        Kinematics { x_target: Vec::new(), y_target: Vec::new(), v: Pos2 { x: 0, y: 0 } }
    }

    /// Replaces the horizontal target; on a rejected request the axis coasts.
    pub fn target_x(
        &mut self,
        v: Option<i64>,
        ds: Option<i64>,
        dt: Option<i64>,
        max_v: Option<i64>,
        model_motion: ModelMotion,
    ) -> (r: Result<(), KinematicsError>)
        requires
            old(self).wf(),
            model_motion.wf(),
            v matches Some(x) ==> abs_i(x as int) <= VEL_LIMIT,
            ds matches Some(x) ==> abs_i(x as int) <= DS_LIMIT,
            dt matches Some(x) ==> 1 <= x <= DUR_LIMIT,
            max_v matches Some(m) ==> 1 <= m <= VEL_LIMIT,
        ensures
            final(self).v == old(self).v,
            final(self).y_target == old(self).y_target,
            final(self).wf(),
            ({
                let s = solve_targets(
                    v,
                    ds,
                    dt,
                    eff_max(max_v, model_motion.max_v.x) as int,
                    model_motion.max_a.x as int,
                    old(self).v.x as int,
                );
                match r {
                    Ok(u) => s matches Ok(ss) && final(self).x_target@ == ss,
                    Err(e) => s matches Err(se) && e == se && final(self).x_target@.len() == 0,
                }
            }),
    {
        let cap = match max_v {
            Some(m) => m,
            None => model_motion.max_v.x,
        };
        match Target::new(v, ds, dt, cap, model_motion.max_a.x, self.v.x) {
            Ok(ts) => {
                self.x_target = ts;
                Ok(())
            },
            Err(e) => {
                self.x_target = Vec::new();
                Err(e)
            },
        }
    }

    /// Appends further horizontal segments; a rejected request changes
    /// nothing.
    pub fn add_target_x(
        &mut self,
        v: Option<i64>,
        ds: Option<i64>,
        dt: Option<i64>,
        max_v: Option<i64>,
        model_motion: ModelMotion,
    ) -> (r: Result<(), KinematicsError>)
        requires
            old(self).wf(),
            model_motion.wf(),
            v matches Some(x) ==> abs_i(x as int) <= VEL_LIMIT,
            ds matches Some(x) ==> abs_i(x as int) <= DS_LIMIT,
            dt matches Some(x) ==> 1 <= x <= DUR_LIMIT,
            max_v matches Some(m) ==> 1 <= m <= VEL_LIMIT,
        ensures
            final(self).v == old(self).v,
            final(self).y_target == old(self).y_target,
            final(self).wf(),
            ({
                let s = solve_targets(
                    v,
                    ds,
                    dt,
                    eff_max(max_v, model_motion.max_v.x) as int,
                    model_motion.max_a.x as int,
                    old(self).v.x as int,
                );
                match r {
                    Ok(u) => s matches Ok(ss) && final(self).x_target@ == old(self).x_target@
                        + ss,
                    Err(e) => s matches Err(se) && e == se && final(self).x_target@ == old(self).x_target@,
                }
            }),
    {
        let cap = match max_v {
            Some(m) => m,
            None => model_motion.max_v.x,
        };
        match Target::new(v, ds, dt, cap, model_motion.max_a.x, self.v.x) {
            Ok(mut ts) => {
                self.x_target.append(&mut ts);
                Ok(())
            },
            Err(e) => Err(e),
        }
    }

    /// Replaces the vertical target; on a rejected request the axis coasts.
    pub fn target_y(
        &mut self,
        v: Option<i64>,
        ds: Option<i64>,
        dt: Option<i64>,
        max_v: Option<i64>,
        model_motion: ModelMotion,
    ) -> (r: Result<(), KinematicsError>)
        requires
            old(self).wf(),
            model_motion.wf(),
            v matches Some(x) ==> abs_i(x as int) <= VEL_LIMIT,
            ds matches Some(x) ==> abs_i(x as int) <= DS_LIMIT,
            dt matches Some(x) ==> 1 <= x <= DUR_LIMIT,
            max_v matches Some(m) ==> 1 <= m <= VEL_LIMIT,
        ensures
            final(self).v == old(self).v,
            final(self).x_target == old(self).x_target,
            final(self).wf(),
            ({
                let s = solve_targets(
                    v,
                    ds,
                    dt,
                    eff_max(max_v, model_motion.max_v.y) as int,
                    model_motion.max_a.y as int,
                    old(self).v.y as int,
                );
                match r {
                    Ok(u) => s matches Ok(ss) && final(self).y_target@ == ss,
                    Err(e) => s matches Err(se) && e == se && final(self).y_target@.len() == 0,
                }
            }),
    {
        let cap = match max_v {
            Some(m) => m,
            None => model_motion.max_v.y,
        };
        match Target::new(v, ds, dt, cap, model_motion.max_a.y, self.v.y) {
            Ok(ts) => {
                self.y_target = ts;
                Ok(())
            },
            Err(e) => {
                self.y_target = Vec::new();
                Err(e)
            },
        }
    }

    /// Appends further vertical segments; a rejected request changes nothing.
    pub fn add_target_y(
        &mut self,
        v: Option<i64>,
        ds: Option<i64>,
        dt: Option<i64>,
        max_v: Option<i64>,
        model_motion: ModelMotion,
    ) -> (r: Result<(), KinematicsError>)
        requires
            old(self).wf(),
            model_motion.wf(),
            v matches Some(x) ==> abs_i(x as int) <= VEL_LIMIT,
            ds matches Some(x) ==> abs_i(x as int) <= DS_LIMIT,
            dt matches Some(x) ==> 1 <= x <= DUR_LIMIT,
            max_v matches Some(m) ==> 1 <= m <= VEL_LIMIT,
        ensures
            final(self).v == old(self).v,
            final(self).x_target == old(self).x_target,
            final(self).wf(),
            ({
                let s = solve_targets(
                    v,
                    ds,
                    dt,
                    eff_max(max_v, model_motion.max_v.y) as int,
                    model_motion.max_a.y as int,
                    old(self).v.y as int,
                );
                match r {
                    Ok(u) => s matches Ok(ss) && final(self).y_target@ == old(self).y_target@
                        + ss,
                    Err(e) => s matches Err(se) && e == se && final(self).y_target@ == old(self).y_target@,
                }
            }),
    {
        let cap = match max_v {
            Some(m) => m,
            None => model_motion.max_v.y,
        };
        match Target::new(v, ds, dt, cap, model_motion.max_a.y, self.v.y) {
            Ok(mut ts) => {
                self.y_target.append(&mut ts);
                Ok(())
            },
            Err(e) => Err(e),
        }
    }

    /// Advances both axes by `dt` milliseconds and returns the displacement
    /// travelled: horizontal along-path distance in `x`, climb in `y`.  The
    /// velocity is clamped to the model's axis limits, on the coasting path
    /// as well as under acceleration.
    pub fn tick(&mut self, dt: i64, model_motion: ModelMotion) -> (r: Pos2)
        requires
            old(self).wf(),
            model_motion.wf(),
            0 < dt <= TICK_MAX,
        ensures
            final(self).wf(),
            abs_i(final(self).v.x as int) <= model_motion.max_v.x,
            abs_i(final(self).v.y as int) <= model_motion.max_v.y,
            ({
                let (tsx, vx, dsx) = axis_result(
                    old(self).x_target@,
                    old(self).v.x as int,
                    model_motion.max_v.x as int,
                    dt as int,
                );
                let (tsy, vy, dsy) = axis_result(
                    old(self).y_target@,
                    old(self).v.y as int,
                    model_motion.max_v.y as int,
                    dt as int,
                );
                final(self).x_target@ == tsx && final(self).y_target@ == tsy && final(self).v.x == vx && final(self).v.y == vy && r.x == dsx && r.y == dsy
            }),
            abs_i(r.x as int) <= (dt as int) * VEL_LIMIT,
            abs_i(r.y as int) <= (dt as int) * VEL_LIMIT,
    {
        let (vx, dsx) = axis_tick(&mut self.x_target, self.v.x, model_motion.max_v.x, dt);
        let (vy, dsy) = axis_tick(&mut self.y_target, self.v.y, model_motion.max_v.y, dt);
        self.v = Pos2 { x: vx, y: vy };
        Pos2 { x: dsx, y: dsy }
    }
}


/// Total duration of a segment list.
pub open spec fn sum_dt(ts: Seq<Target>) -> int
    decreases ts.len(),
{
    if ts.len() == 0 {
        0
    } else {
        sum_dt(ts.drop_last()) + ts.last().dt
    }
}

proof fn lemma_sum_dt_nonneg(ts: Seq<Target>, n: int)
    requires
        wf_targets(ts),
    ensures
        0 <= sum_dt(ts) <= ts.len() * TIME_LIMIT,
    decreases ts.len(),
{
    if ts.len() == 0 {
    } else {
        assert(wf_targets(ts.drop_last())) by {
            assert(forall|i: int|
                0 <= i < ts.len() - 1 ==> ts.drop_last()[i] == #[trigger] ts[i]);
        }
        lemma_sum_dt_nonneg(ts.drop_last(), n);
        assert((ts.len() - 1) * TIME_LIMIT + TIME_LIMIT == ts.len() * TIME_LIMIT)
            by (nonlinear_arith);
    }
}

} // verus!
