//! Drivable path primitives, the flight planner that samples them by
//! arclength, and the pose-plus-motion state of one aircraft.

use std::collections::VecDeque;

use vstd::prelude::*;

use crate::angle::{atan2_ur, dir_vec, rot_v, Angle, TAU_UR};
use crate::config::Config;
use crate::direction::{Direction, LMR, FMB, PerpRot, Rotation};
use crate::kinematics::{Kinematics, DS_LIMIT, TICK_MAX};
use crate::num::{abs_i, clamp128, lemma_tdiv_abs, mul_i64, sqrt_floor, tdiv, tdiv128, SCALE};
use crate::pos::{dist2, Pos2, Pos2Angle, Pos3, Pos3Angle, COORD_LIMIT};
use crate::ray::Ray;
use crate::world_data::{ModelMotion, Waypoint, RADIUS_LIMIT};

verus! {

/// Path lengths stay within this many micro-units.
pub const LEN_LIMIT: i64 = 3_000_000_000_000_000;

/// Arclength carried across instructions stays within this bound.
pub const CARRY_LIMIT: i64 = 100_000_000_000_000_000;

/// A planar pose the simulation accepts: position within the world and a
/// wrapped heading.
pub open spec fn pose2_wf(p: Pos2Angle) -> bool {
    p.0.in_world() && -TAU_UR < p.1.0 < TAU_UR
}

/// A spatial pose the simulation accepts.
pub open spec fn pose3_wf(p: Pos3Angle) -> bool {
    &&& abs_i(p.0.x as int) <= COORD_LIMIT
    &&& abs_i(p.0.y as int) <= COORD_LIMIT
    &&& abs_i(p.0.z as int) <= COORD_LIMIT
    &&& -TAU_UR < p.1.0 < TAU_UR
}

/// One drivable geometric segment: a straight ray, or a circular turn of a
/// signed angle around the circle touching the origin pose.
#[derive(Clone, Debug)]
pub enum FlightInstruction {
    Straight(Ray<Pos2>),
    Turn { origin: Pos2Angle, angle: Angle, radius: i64 },
}

/// An instruction the planner accepts: world-bounded geometry of positive
/// length (a turn may be empty), with a bounded radius.
pub open spec fn instr_wf(i: FlightInstruction) -> bool {
    match i {
        FlightInstruction::Straight(ray) => ray.tail.in_world() && abs_i(ray.vec.x as int) <= 2
            * COORD_LIMIT && abs_i(ray.vec.y as int) <= 2 * COORD_LIMIT && dist2(
            ray.vec,
            Pos2 { x: 0, y: 0 },
        ) >= 1,
        FlightInstruction::Turn { origin, angle, radius } => pose2_wf(origin) && abs_i(
            angle.0 as int,
        ) <= TAU_UR && 1 <= radius <= RADIUS_LIMIT,
    }
}

/// Closed-form length of an instruction.
pub open spec fn instr_len(i: FlightInstruction) -> int {
    match i {
        FlightInstruction::Straight(ray) => sqrt_floor(dist2(ray.vec, Pos2 { x: 0, y: 0 })),
        FlightInstruction::Turn { origin, angle, radius } => tdiv(
            radius * abs_i(angle.0 as int),
            SCALE as int,
        ),
    }
}

/// Pose at arclength `s` into an instruction.
pub open spec fn instr_sample(i: FlightInstruction, s: int) -> Pos2Angle {
    match i {
        FlightInstruction::Straight(ray) => {
            let len = instr_len(i);
            Pos2Angle(
                ray.tail.add_v(ray.vec.mul_div_v(s, len)).clamp_world_v(),
                Angle(atan2_ur(ray.vec.y as int, ray.vec.x as int) as i64),
            )
        },
        FlightInstruction::Turn { origin, angle, radius } => {
            let len = instr_len(i);
            if len == 0 {
                origin
            } else {
                let rot = tdiv(angle.0 * s, len);
                let u = dir_vec(origin.1.0 as int);
                let vperp = if angle.0 >= 0 {
                    Pos2 { x: (-u.y) as i64, y: u.x }
                } else {
                    Pos2 { x: u.y, y: (-u.x) as i64 }
                };
                let vc = vperp.mul_div_v(radius as int, SCALE as int);
                let pos = origin.0.add_v(vc).add_v(rot_v(vc.neg_v(), rot)).clamp_world_v();
                Pos2Angle(pos, Angle(crate::angle::clamp_ur(origin.1.0 + rot) as i64))
            }
        },
    }
}


/// A single straight segment toward `to`, or nothing when the points
/// coincide, as a specification value.
pub open spec fn straight_or_empty_spec(from: Pos2, to: Pos2) -> Seq<FlightInstruction> {
    if from == to {
        Seq::empty()
    } else {
        seq![FlightInstruction::Straight(Ray { tail: from, vec: to.sub_v(from) })]
    }
}

/// The unit heading vector of the starting pose.
pub open spec fn plan_c(from: Pos2Angle) -> Pos2 {
    dir_vec(from.1.0 as int)
}

/// The vector from the starting position to the target.
pub open spec fn plan_d0(from: Pos2Angle, to: Pos2) -> Pos2 {
    to.sub_v(from.0)
}

/// The side the turn is taken on before the inside-circle check: the side
/// the target lies on, or left for a target dead behind.
pub open spec fn plan_dir1(from: Pos2Angle, to: Pos2) -> LMR {
    let dir0 = crate::direction::lmr_of(plan_c(from), plan_d0(from, to));
    if dir0 == LMR::Middle {
        LMR::Left
    } else {
        dir0
    }
}

/// The vector from the turn centre back to the starting position, before
/// the inside-circle check.
pub open spec fn plan_a1a(from: Pos2Angle, to: Pos2, mm: ModelMotion) -> Pos2 {
    let pvec = plan_c(from).perp_rot_spec(
        if plan_dir1(from, to) == LMR::Right {
            Rotation::Clockwise
        } else {
            Rotation::Anticlockwise
        },
    ).neg_v();
    pvec.mul_div_v(mm.turning_radius as int, SCALE as int)
}

/// Whether the target lies inside the first-choice turning circle, which
/// reverses the turn.
pub open spec fn plan_reversed(from: Pos2Angle, to: Pos2, mm: ModelMotion) -> bool {
    let oa = from.0.sub_v(plan_a1a(from, to, mm)).clamp_world_v();
    sqrt_floor(dist2(oa, to)) < mm.turning_radius
}

/// The side the turn is finally taken on.
pub open spec fn plan_dir2(from: Pos2Angle, to: Pos2, mm: ModelMotion) -> LMR {
    if plan_reversed(from, to, mm) {
        plan_dir1(from, to).rev_v()
    } else {
        plan_dir1(from, to)
    }
}

/// The vector from the final turn centre back to the starting position.
pub open spec fn plan_a1(from: Pos2Angle, to: Pos2, mm: ModelMotion) -> Pos2 {
    if plan_reversed(from, to, mm) {
        plan_a1a(from, to, mm).neg_v()
    } else {
        plan_a1a(from, to, mm)
    }
}

/// The final turn centre.
pub open spec fn plan_o(from: Pos2Angle, to: Pos2, mm: ModelMotion) -> Pos2 {
    from.0.sub_v(plan_a1(from, to, mm)).clamp_world_v()
}

/// The vector from the final turn centre to the target.
pub open spec fn plan_d(from: Pos2Angle, to: Pos2, mm: ModelMotion) -> Pos2 {
    to.sub_v(plan_o(from, to, mm))
}

/// The tangent run: the direction of `plan_d` rotated by the tangent angle,
/// scaled to the tangent length.
pub open spec fn plan_b(from: Pos2Angle, to: Pos2, mm: ModelMotion) -> Pos2 {
    let r = mm.turning_radius;
    let d = plan_d(from, to, mm);
    let b_mag = sqrt_floor(dist2(d, Pos2 { x: 0, y: 0 }) - r * r);
    let phi_mag = atan2_ur(r as int, b_mag);
    let phi = if plan_dir2(from, to, mm) == LMR::Right {
        -phi_mag
    } else {
        phi_mag
    };
    let thd = atan2_ur(d.y as int, d.x as int);
    dir_vec(thd + phi).mul_div_v(b_mag, SCALE as int)
}

/// The signed turn amount: the angle from the centre-to-start vector to the
/// centre-to-tangent-point vector, pushed past a half turn on the chosen
/// side.
pub open spec fn plan_theta(from: Pos2Angle, to: Pos2, mm: ModelMotion) -> int {
    let a1 = plan_a1(from, to, mm);
    let a2 = plan_d(from, to, mm).sub_v(plan_b(from, to, mm));
    let theta0 = atan2_ur(a1.x * a2.y - a1.y * a2.x, a1.x * a2.x + a1.y * a2.y);
    if plan_dir2(from, to, mm) == LMR::Left && theta0 < 0 {
        theta0 + TAU_UR
    } else if plan_dir2(from, to, mm) == LMR::Right && theta0 > 0 {
        theta0 - TAU_UR
    } else {
        theta0
    }
}

/// The turn instruction of the plan.
pub open spec fn plan_turn(from: Pos2Angle, to: Pos2, mm: ModelMotion) -> FlightInstruction {
    FlightInstruction::Turn {
        origin: from,
        angle: Angle(plan_theta(from, to, mm) as i64),
        radius: mm.turning_radius,
    }
}

/// The plan toward a target, as a specification value: the exact turn and
/// tangent-run geometry the planner computes.  A target dead ahead yields
/// the single straight; a target abeam-behind turns left; a target inside
/// both turning circles falls back to the straight; otherwise the
/// minimum-radius turn onto the tangent line, then the tangent run.
pub open spec fn plan_spec(from: Pos2Angle, to: Pos2, mm: ModelMotion) -> Seq<FlightInstruction> {
    let dir0 = crate::direction::lmr_of(plan_c(from), plan_d0(from, to));
    let fmb0 = crate::direction::fmb_of(plan_c(from), plan_d0(from, to));
    if dir0 == LMR::Middle && fmb0 == FMB::Front {
        straight_or_empty_spec(from.0, to)
    } else if dir0 == LMR::Middle && fmb0 == FMB::Middle {
        Seq::empty()
    } else {
        let r = mm.turning_radius;
        let dls = dist2(plan_d(from, to, mm), Pos2 { x: 0, y: 0 });
        if dls <= r * r {
            straight_or_empty_spec(from.0, to)
        } else {
            let turn = plan_turn(from, to, mm);
            let turn_end = instr_sample(turn, instr_len(turn));
            let straight_end = turn_end.0.add_v(plan_b(from, to, mm)).clamp_world_v();
            if straight_end == turn_end.0 {
                seq![turn]
            } else {
                seq![
                    turn,
                    FlightInstruction::Straight(
                        Ray { tail: turn_end.0, vec: straight_end.sub_v(turn_end.0) },
                    ),
                ]
            }
        }
    }
}

impl FlightInstruction {
    /// Closed-form length of the instruction.
    pub fn length(&self) -> (r: i64)
        requires
            instr_wf(*self),
        ensures
            r == instr_len(*self),
            0 <= r <= LEN_LIMIT,
            self is Straight ==> r >= 1,
    {
        match self {
            FlightInstruction::Straight(ray) => {
                let l = ray.vec.length();
                proof {
                    assert((l as int) * (l as int) <= dist2(ray.vec, Pos2 { x: 0, y: 0 })
                        < ((l as int) + 1) * ((l as int) + 1));
                    assert(dist2(ray.vec, Pos2 { x: 0, y: 0 }) <= 2 * ((2 * (COORD_LIMIT as int))
                        * (2 * (COORD_LIMIT as int)))) by (nonlinear_arith)
                        requires
                            abs_i(ray.vec.x as int) <= 2 * COORD_LIMIT,
                            abs_i(ray.vec.y as int) <= 2 * COORD_LIMIT,
                    ;
                    assert(l <= LEN_LIMIT && l >= 1) by (nonlinear_arith)
                        requires
                            0 <= l,
                            (l as int) * (l as int) <= dist2(ray.vec, Pos2 { x: 0, y: 0 }),
                            ((l as int) + 1) * ((l as int) + 1) > dist2(
                                ray.vec,
                                Pos2 { x: 0, y: 0 },
                            ),
                            1 <= dist2(ray.vec, Pos2 { x: 0, y: 0 }),
                            dist2(ray.vec, Pos2 { x: 0, y: 0 }) <= 2 * ((2 * (COORD_LIMIT as int))
                                * (2 * (COORD_LIMIT as int))),
                    ;
                }
                l
            },
            FlightInstruction::Turn { origin, angle, radius } => {
                let am: i64 = if angle.0 >= 0 {
                    angle.0
                } else {
                    -angle.0
                };
                let prod = mul_i64(*radius, am);
                proof {
                    assert(abs_i((*radius as int) * (am as int)) <= (SCALE as int) * LEN_LIMIT)
                        by (nonlinear_arith)
                        requires
                            1 <= *radius <= RADIUS_LIMIT,
                            0 <= am <= TAU_UR,
                    ;
                    lemma_tdiv_abs((*radius as int) * (am as int), SCALE as int, LEN_LIMIT as int);
                    crate::num::lemma_tdiv_le(
                        (*radius as int) * (am as int),
                        SCALE as int,
                        LEN_LIMIT as int,
                    );
                }
                let l = tdiv128(prod, SCALE as i128);
                l as i64
            },
        }
    }

    /// Pose at arclength `s`, if `s` lies within the instruction.
    pub fn sample(&self, s: i64) -> (r: Option<Pos2Angle>)
        requires
            instr_wf(*self),
        ensures
            r is Some <==> 0 <= s <= instr_len(*self),
            r matches Some(p) ==> p == instr_sample(*self, s as int) && pose2_wf(p),
    {
        let len = self.length();
        if s < 0 || s > len {
            return None;
        }
        match self {
            FlightInstruction::Straight(ray) => {
                proof {
                    assert(abs_i(ray.vec.x * s) <= (len as int) * crate::pos::VEC_LIMIT && abs_i(
                        ray.vec.y * s,
                    ) <= (len as int) * crate::pos::VEC_LIMIT) by (nonlinear_arith)
                        requires
                            abs_i(ray.vec.x as int) <= 2 * COORD_LIMIT,
                            abs_i(ray.vec.y as int) <= 2 * COORD_LIMIT,
                            0 <= s <= len,
                            1 <= len,
                            2 * COORD_LIMIT <= crate::pos::VEC_LIMIT,
                    ;
                }
                let step = ray.vec.mul_div(s, len);
                proof {
                    assert(abs_i(ray.vec.x * s) <= (len as int) * (2 * (COORD_LIMIT as int))
                        && abs_i(ray.vec.y * s) <= (len as int) * (2 * (COORD_LIMIT as int)))
                        by (nonlinear_arith)
                        requires
                            abs_i(ray.vec.x as int) <= 2 * COORD_LIMIT,
                            abs_i(ray.vec.y as int) <= 2 * COORD_LIMIT,
                            0 <= s <= len,
                            1 <= len,
                    ;
                    lemma_tdiv_abs(ray.vec.x * s, len as int, 2 * (COORD_LIMIT as int));
                    lemma_tdiv_abs(ray.vec.y * s, len as int, 2 * (COORD_LIMIT as int));
                }
                let pos = ray.tail.plus(step).clamp_world();
                Some(Pos2Angle(pos, ray.vec.to_angle()))
            },
            FlightInstruction::Turn { origin, angle, radius } => {
                if len == 0 {
                    return Some(*origin);
                }
                let prod = mul_i64(angle.0, s);
                proof {
                    assert(abs_i((angle.0 as int) * (s as int)) <= (len as int) * TAU_UR)
                        by (nonlinear_arith)
                        requires
                            abs_i(angle.0 as int) <= TAU_UR,
                            0 <= s <= len,
                    ;
                    lemma_tdiv_abs((angle.0 as int) * (s as int), len as int, TAU_UR as int);
                }
                let rot = Angle(tdiv128(prod, len as i128) as i64);
                let u = origin.1.vec();
                let vperp = u.perp_rot(
                    if angle.0 >= 0 {
                        Rotation::Anticlockwise
                    } else {
                        Rotation::Clockwise
                    },
                );
                proof {
                    assert(abs_i(vperp.x * (*radius)) <= (SCALE as int) * crate::pos::VEC_LIMIT
                        && abs_i(vperp.y * (*radius)) <= (SCALE as int) * crate::pos::VEC_LIMIT
                        && abs_i(vperp.x * (*radius)) <= (SCALE as int) * (RADIUS_LIMIT as int)
                        && abs_i(vperp.y * (*radius)) <= (SCALE as int) * (RADIUS_LIMIT as int))
                        by (nonlinear_arith)
                        requires
                            abs_i(vperp.x as int) <= SCALE,
                            abs_i(vperp.y as int) <= SCALE,
                            1 <= *radius <= RADIUS_LIMIT,
                    ;
                }
                let vc = vperp.mul_div(*radius, SCALE);
                proof {
                    lemma_tdiv_abs(vperp.x * (*radius), SCALE as int, RADIUS_LIMIT as int);
                    lemma_tdiv_abs(vperp.y * (*radius), SCALE as int, RADIUS_LIMIT as int);
                }
                let swing = vc.negate().rotate_by(rot);
                let pos = origin.0.plus(vc).plus(swing).clamp_world();
                let head = Angle(origin.1.0 + rot.0).clamp();
                Some(Pos2Angle(pos, head))
            },
        }
    }

    /// The pose at the far end of the instruction.
    pub fn end(&self) -> (r: Pos2Angle)
        requires
            instr_wf(*self),
        ensures
            r == instr_sample(*self, instr_len(*self)),
            pose2_wf(r),
    {
        let len = self.length();
        match self.sample(len) {
            Some(p) => p,
            None => vstd::pervasive::unreached(),
        }
    }
}

/// Every instruction of the queue is acceptable.
pub open spec fn instrs_wf(s: Seq<FlightInstruction>) -> bool {
    forall|i: int| 0 <= i < s.len() ==> instr_wf(#[trigger] s[i])
}

/// Total length of a queue of instructions.
pub open spec fn instr_len_sum(s: Seq<FlightInstruction>) -> int
    decreases s.len(),
{
    if s.len() == 0 {
        0
    } else {
        instr_len_sum(s.drop_last()) + instr_len(s.last())
    }
}

/// Every waypoint of the route is within the world.
pub open spec fn route_wf(s: Seq<Waypoint>) -> bool {
    forall|i: int| 0 <= i < s.len() ==> (#[trigger] s[i]).wf()
}

/// The queue of instructions not yet flown, the arclength cursor into the
/// head instruction, the waypoints not yet compiled, and the flown history.
#[derive(Clone, Debug)]
pub struct FlightPlanner {
    pub instructions: VecDeque<FlightInstruction>,
    pub route: VecDeque<Waypoint>,
    pub instruction_s: i64,
    pub past_instructions: Vec<FlightInstruction>,
    pub past_route: Vec<Waypoint>,
    pub past_pos: Vec<Pos3>,
}

/// A planner the simulation accepts: valid queues and a cursor within the
/// length bound.
pub open spec fn planner_wf(p: FlightPlanner) -> bool {
    &&& instrs_wf(p.instructions@)
    &&& route_wf(p.route@)
    &&& 0 <= p.instruction_s <= LEN_LIMIT
}

impl FlightPlanner {
    /// A planner over the given queues, with a zero cursor and no history.
    pub fn new(instructions: VecDeque<FlightInstruction>, route: VecDeque<Waypoint>) -> (r:
        FlightPlanner)
        requires
            instrs_wf(instructions@),
            route_wf(route@),
        ensures
            planner_wf(r),
            r.instructions@ == instructions@,
            r.route@ == route@,
            r.instruction_s == 0,
            r.past_instructions@.len() == 0,
            r.past_route@.len() == 0,
            r.past_pos@.len() == 0,
    {
        FlightPlanner {
            instructions,
            route,
            instruction_s: 0,
            past_instructions: Vec::new(),
            past_route: Vec::new(),
            past_pos: Vec::new(),
        }
    }

    /// The minimum-radius turn from the pose toward `to`, followed by the
    /// straight tangent run; a single straight segment when `to` lies dead
    /// ahead, and nothing when the request is degenerate.
    #[verifier::rlimit(80)]
    pub fn plan_to_pos2(from: Pos2Angle, to: Pos2, mm: ModelMotion) -> (r: Vec<
        FlightInstruction,
    >)
        requires
            pose2_wf(from),
            to.in_world(),
            mm.wf(),
        ensures
            instrs_wf(r@),
            r@.len() <= 2,
            r@ == plan_spec(from, to, mm),
    {
        let c = from.1.vec();
        let d0 = to.minus(from.0);
        let mut direction = c.lmr(d0);
        if matches!(direction, LMR::Middle) {
            match c.fmb(d0) {
                FMB::Front => {
                    let out = Self::straight_or_empty(from.0, to);
                    proof {
                        assert(out@ == plan_spec(from, to, mm));
                    }
                    return out;
                },
                FMB::Middle => {
                    proof {
                        assert(plan_spec(from, to, mm) =~= Seq::<FlightInstruction>::empty());
                    }
                    return Vec::new();
                },
                FMB::Back => {
                    direction = LMR::Left;
                },
            }
        }
        proof {
            assert(direction == plan_dir1(from, to));
        }
        let r = mm.turning_radius;
        let pvec = c.perp_lmr(direction).negate();
        proof {
            assert(abs_i(pvec.x * r) <= (SCALE as int) * (RADIUS_LIMIT as int) && abs_i(
                pvec.y * r,
            ) <= (SCALE as int) * (RADIUS_LIMIT as int) && (SCALE as int) * (RADIUS_LIMIT as int)
                <= (SCALE as int) * crate::pos::VEC_LIMIT) by (nonlinear_arith)
                requires
                    abs_i(pvec.x as int) <= SCALE,
                    abs_i(pvec.y as int) <= SCALE,
                    1 <= r <= RADIUS_LIMIT,
            ;
        }
        let mut a1 = pvec.mul_div(r, SCALE);
        proof {
            lemma_tdiv_abs(pvec.x * r, SCALE as int, RADIUS_LIMIT as int);
            lemma_tdiv_abs(pvec.y * r, SCALE as int, RADIUS_LIMIT as int);
            assert(a1 == plan_a1a(from, to, mm));
        }
        let mut o = from.0.minus(a1).clamp_world();
        if o.distance(to) < r {
            proof {
                assert(plan_reversed(from, to, mm));
            }
            direction = direction.rev();
            a1 = a1.negate();
            o = from.0.minus(a1).clamp_world();
        } else {
            proof {
                assert(!plan_reversed(from, to, mm));
            }
        }
        proof {
            assert(direction == plan_dir2(from, to, mm));
            assert(a1 == plan_a1(from, to, mm));
            assert(o == plan_o(from, to, mm));
        }
        let d = to.minus(o);
        let dls = d.length_squared();
        let rr = mul_i64(r, r);
        proof {
            assert(d == plan_d(from, to, mm));
        }
        if dls <= rr {
            let out = Self::straight_or_empty(from.0, to);
            proof {
                assert(out@ == plan_spec(from, to, mm));
            }
            return out;
        }
        proof {
            assert(dls <= 8_000_000_000_000_000_000_000_000_000_000int) by (nonlinear_arith)
                requires
                    dls == dist2(d, Pos2 { x: 0, y: 0 }),
                    abs_i(d.x as int) <= 2 * COORD_LIMIT,
                    abs_i(d.y as int) <= 2 * COORD_LIMIT,
            ;
        }
        let b_mag = crate::num::isqrt((dls - rr) as u128);
        proof {
            assert((b_mag as int) <= 3_000_000_000_000_000int) by (nonlinear_arith)
                requires
                    (b_mag as int) * (b_mag as int) <= dls - rr,
                    0 <= b_mag,
                    dls - rr <= 8_000_000_000_000_000_000_000_000_000_000int,
            ;
        }
        let phi_mag = crate::angle::atan2_fp(r as i128, b_mag as i128);
        let phi: i64 = if matches!(direction, LMR::Right) {
            -phi_mag
        } else {
            phi_mag
        };
        let thd = d.to_angle();
        let bang = Angle(thd.0 + phi);
        let ub = bang.vec();
        proof {
            assert(abs_i(ub.x * (b_mag as i64)) <= (SCALE as int) * crate::pos::VEC_LIMIT && abs_i(
                ub.y * (b_mag as i64),
            ) <= (SCALE as int) * crate::pos::VEC_LIMIT && abs_i(ub.x * (b_mag as i64)) <= (
            SCALE as int) * 3_000_000_000_000_000int && abs_i(ub.y * (b_mag as i64)) <= (
            SCALE as int) * 3_000_000_000_000_000int) by (nonlinear_arith)
                requires
                    abs_i(ub.x as int) <= SCALE,
                    abs_i(ub.y as int) <= SCALE,
                    0 <= b_mag <= 3_000_000_000_000_000int,
            ;
        }
        let b = ub.mul_div(b_mag as i64, SCALE);
        proof {
            lemma_tdiv_abs(ub.x * (b_mag as i64), SCALE as int, 3_000_000_000_000_000int);
            lemma_tdiv_abs(ub.y * (b_mag as i64), SCALE as int, 3_000_000_000_000_000int);
            assert(b == plan_b(from, to, mm));
        }
        let a2 = d.minus(b);
        let mut theta = a1.angle_between(a2).0;
        if matches!(direction, LMR::Left) && theta < 0 {
            theta = theta + TAU_UR;
        } else if matches!(direction, LMR::Right) && theta > 0 {
            theta = theta - TAU_UR;
        }
        proof {
            assert(theta as int == plan_theta(from, to, mm));
        }
        let turn = FlightInstruction::Turn { origin: from, angle: Angle(theta), radius: r };
        proof {
            assert(instr_wf(turn));
            assert(turn == plan_turn(from, to, mm));
        }
        let turn_end = turn.end();
        let mut out: Vec<FlightInstruction> = Vec::new();
        let straight_end = turn_end.0.plus(b).clamp_world();
        out.push(turn);
        if !(straight_end.x == turn_end.0.x && straight_end.y == turn_end.0.y) {
            let tail = FlightInstruction::Straight(Ray::new(turn_end.0, straight_end));
            proof {
                let w = straight_end.sub_v(turn_end.0);
                assert(dist2(w, Pos2 { x: 0, y: 0 }) >= 1) by (nonlinear_arith)
                    requires
                        w.x == straight_end.x - turn_end.0.x,
                        w.y == straight_end.y - turn_end.0.y,
                        straight_end.x != turn_end.0.x || straight_end.y != turn_end.0.y,
                ;
            }
            proof {
                assert(instr_wf(tail));
            }
            out.push(tail);
            proof {
                assert(out@ =~= plan_spec(from, to, mm));
            }
        } else {
            proof {
                assert(straight_end == turn_end.0);
                assert(out@ =~= plan_spec(from, to, mm));
            }
        }
        proof {
            assert(instrs_wf(out@));
        }
        out
    }

    /// A single straight segment, or nothing when the endpoints coincide.
    fn straight_or_empty(from: Pos2, to: Pos2) -> (r: Vec<FlightInstruction>)
        requires
            from.in_world(),
            to.in_world(),
        ensures
            instrs_wf(r@),
            r@.len() <= 1,
            r@ == straight_or_empty_spec(from, to),
            dist2(from, to) >= 1 ==> (r@.len() == 1 && r@[0] == FlightInstruction::Straight(
                Ray { tail: from, vec: to.sub_v(from) },
            )),
    {
        let mut out: Vec<FlightInstruction> = Vec::new();
        if !(from.x == to.x && from.y == to.y) {
            proof {
                assert(dist2(to.sub_v(from), Pos2 { x: 0, y: 0 }) == dist2(from, to) && dist2(
                    from,
                    to,
                ) >= 1) by (nonlinear_arith)
                    requires
                        from != to,
                        abs_i(from.x as int) <= COORD_LIMIT,
                        abs_i(from.y as int) <= COORD_LIMIT,
                        abs_i(to.x as int) <= COORD_LIMIT,
                        abs_i(to.y as int) <= COORD_LIMIT,
                ;
            }
            out.push(FlightInstruction::Straight(Ray::new(from, to)));
            proof {
                assert(out@ =~= straight_or_empty_spec(from, to));
            }
        } else {
            proof {
                assert(dist2(from, to) == 0) by (nonlinear_arith)
                    requires
                        from.x == to.x,
                        from.y == to.y,
                ;
                assert(from == to);
                assert(out@ =~= straight_or_empty_spec(from, to));
            }
        }
        out
    }


    /// Compiles the next waypoint of the route into drivable instructions:
    /// jitters the target within twice the turning radius, plans the
    /// minimum-radius turn toward it, and on later legs sets the vertical
    /// target to the leg's cruising altitude.
    fn compile_next(
        &mut self,
        pose: Pos2Angle,
        model_motion: ModelMotion,
        kinematics: &mut Kinematics,
        config: &Config,
        z: i64,
    )
        requires
            planner_wf(*old(self)),
            old(self).route@.len() > 0,
            pose2_wf(pose),
            model_motion.wf(),
            old(kinematics).wf(),
            config.wf(),
            abs_i(z as int) <= COORD_LIMIT,
        ensures
            planner_wf(*final(self)),
            final(self).route@.len() == old(self).route@.len() - 1,
            final(self).route@ == old(self).route@.subrange(1, old(self).route@.len() as int),
            final(self).instructions@.len() <= old(self).instructions@.len() + 2,
            final(self).instruction_s == old(self).instruction_s,
            final(self).past_route@ == old(self).past_route@.push(old(self).route@[0]),
            final(self).past_instructions@ == old(self).past_instructions@,
            final(self).past_pos@ == old(self).past_pos@,
            final(kinematics).wf(),
            final(kinematics).v == old(kinematics).v,
            final(kinematics).x_target == old(kinematics).x_target,
            // The compiled instructions are the planned turn and tangent
            // toward the waypoint, displaced by the bounded random jitter.
            exists|j: Pos2|
                abs_i(j.x as int) <= 2 * model_motion.turning_radius && abs_i(j.y as int) <= 2
                    * model_motion.turning_radius && final(self).instructions@ == old(self).instructions@ + plan_spec(
                    pose,
                    old(self).route@[0].pos.add_v(j).clamp_world_v(),
                    model_motion,
                ),
            // On later legs the vertical axis is retargeted to the leg's
            // cruising altitude; the first leg leaves it alone.
            old(self).past_route@.len() == 0 ==> final(kinematics).y_target == old(
                kinematics,
            ).y_target,
            old(self).past_route@.len() > 0 ==> ({
                let dsv = (crate::config::cruising_altitude_spec(
                    *config,
                    pose.0,
                    old(self).route@[0].pos,
                ) - z) as i64;
                match crate::kinematics::solve_targets(
                    Some(0i64),
                    Some(dsv),
                    None::<i64>,
                    model_motion.max_v.y as int,
                    model_motion.max_a.y as int,
                    old(kinematics).v.y as int,
                ) {
                    Ok(ss) => final(kinematics).y_target@ == ss,
                    Err(e) => final(kinematics).y_target@.len() == 0,
                }
            }),
    {
        let ghost pre_route = self.route@;
        let waypoint = match self.route.pop_front() {
            Some(w) => w,
            None => vstd::pervasive::unreached(),
        };
        proof {
            assert(route_wf(self.route@)) by {
                assert(forall|i: int|
                    0 <= i < self.route@.len() ==> #[trigger] self.route@[i] == pre_route[i
                        + 1]);
            }
            assert(waypoint.wf());
        }
        let tr = model_motion.turning_radius;
        proof {
            assert(1 <= tr <= RADIUS_LIMIT);
            assert(-2 * tr < 2 * tr);
        }
        let jx = crate::rng::rand_range_i64(-2 * tr, 2 * tr);
        let jy = crate::rng::rand_range_i64(-2 * tr, 2 * tr);
        let jitter = Pos2 { x: jx, y: jy };
        let wp_pos = waypoint.pos.plus(jitter).clamp_world();
        if self.past_route.len() > 0 {
            let alt = config.cruising_altitude(pose.0, waypoint.pos);
            let _ = kinematics.target_y(Some(0), Some(alt - z), None, None, model_motion);
        }
        let mut instrs = Self::plan_to_pos2(pose, wp_pos, model_motion);
        let ghost pre_instructions = self.instructions@;
        let mut k: usize = 0;
        let ghost pre_len = self.instructions@.len();
        while k < instrs.len()
            invariant
                instrs_wf(instrs@),
                instrs_wf(self.instructions@),
                0 <= k <= instrs@.len(),
                instrs@.len() <= 2,
                self.instructions@.len() == pre_len + k,
                self.instructions@ == pre_instructions + instrs@.take(k as int),
                route_wf(self.route@),
                self.route@.len() == pre_route.len() - 1,
                self.route@ == pre_route.subrange(1, pre_route.len() as int),
                self.instruction_s == old(self).instruction_s,
                0 <= self.instruction_s <= LEN_LIMIT,
                self.past_route@ == old(self).past_route@,
                self.past_instructions@ == old(self).past_instructions@,
                self.past_pos@ == old(self).past_pos@,
            decreases instrs@.len() - k,
        {
            let ghost pre_instr = self.instructions@;
            let ins = instrs[k].clone_instr();
            self.instructions.push_back(ins);
            proof {
                assert(instrs_wf(self.instructions@)) by {
                    assert(forall|i: int|
                        0 <= i < pre_instr.len() ==> #[trigger] self.instructions@[i]
                            == pre_instr[i]);
                    assert(self.instructions@[pre_instr.len() as int] == ins);
                }
                assert(self.instructions@ =~= pre_instructions + instrs@.take(k as int + 1));
            }
            k = k + 1;
        }
        self.past_route.push(waypoint);
        proof {
            assert(instrs@.take(instrs@.len() as int) =~= instrs@);
            assert(self.instructions@ == pre_instructions + instrs@);
            assert(abs_i(jitter.x as int) <= 2 * model_motion.turning_radius && abs_i(
                jitter.y as int,
            ) <= 2 * model_motion.turning_radius && self.instructions@ == pre_instructions
                + plan_spec(
                pose,
                pre_route[0].pos.add_v(jitter).clamp_world_v(),
                model_motion,
            ));
            assert(self.past_route@ =~= old(self).past_route@.push(pre_route[0]));
        }
    }

    /// Advances the plan by a longitudinal displacement: compiles the next
    /// waypoint when the queue empties, samples the head instruction at the
    /// new cursor, and carries any overflow into the next instruction; with
    /// nothing left to fly the pose advances along its heading.
    pub fn tick(
        &mut self,
        dsx: i64,
        pos_ang: Pos2Angle,
        model_motion: ModelMotion,
        kinematics: &mut Kinematics,
        config: &Config,
        z: i64,
    ) -> (r: Pos2Angle)
        requires
            planner_wf(*old(self)),
            pose2_wf(pos_ang),
            model_motion.wf(),
            old(kinematics).wf(),
            config.wf(),
            abs_i(dsx as int) <= DS_LIMIT,
            abs_i(z as int) <= COORD_LIMIT,
        ensures
            planner_wf(*final(self)),
            pose2_wf(r),
            final(kinematics).wf(),
            final(kinematics).v == old(kinematics).v,
            final(kinematics).x_target == old(kinematics).x_target,
            final(self).route@.len() <= old(self).route@.len(),
            final(self).past_pos@ == old(self).past_pos@,
            // Flown history only grows, keeping what it held.
            final(self).past_instructions@.len() >= old(self).past_instructions@.len(),
            final(self).past_instructions@.subrange(
                0,
                old(self).past_instructions@.len() as int,
            ) == old(self).past_instructions@,
            final(self).past_route@.subrange(0, old(self).past_route@.len() as int) == old(self).past_route@,
            // A displacement that stays within the head instruction samples
            // it at the advanced cursor and changes nothing else.
            old(self).instructions@.len() > 0 && 0 <= old(self).instruction_s + dsx && old(self).instruction_s + dsx <= instr_len(old(self).instructions@[0]) ==> (r
                == instr_sample(old(self).instructions@[0], old(self).instruction_s + dsx)
                && *final(kinematics) == *old(kinematics) && final(self).instructions@ == old(self).instructions@ && final(self).route@ == old(self).route@ && final(self).instruction_s == old(self).instruction_s + dsx && final(self).past_instructions@
                == old(self).past_instructions@ && final(self).past_route@ == old(self).past_route@),
            // Whenever a plan remains, the returned pose is the sample of
            // its head instruction at the stored cursor.
            final(self).instructions@.len() > 0 ==> r == instr_sample(
                final(self).instructions@[0],
                final(self).instruction_s as int,
            ),
            // An overflowing displacement retires the old head first.
            old(self).instructions@.len() > 0 && final(self).past_instructions@.len() > old(self).past_instructions@.len() ==> final(self).past_instructions@[old(self).past_instructions@.len() as int] == old(self).instructions@[0],
            old(self).instructions@.len() > 0 && !(0 <= old(self).instruction_s + dsx && old(self).instruction_s + dsx <= instr_len(old(self).instructions@[0])) ==> final(self).past_instructions@.len() > old(self).past_instructions@.len(),
            // An empty plan with a pending route compiles its next waypoint.
            old(self).instructions@.len() == 0 && old(self).route@.len() > 0 ==> final(self).route@.len() < old(self).route@.len() && final(self).past_route@.len() > old(self).past_route@.len() && final(self).past_route@[old(self).past_route@.len() as int]
                == old(self).route@[0],
            // Arclength is conserved: a forward displacement is accounted
            // for exactly by the instructions retired this call plus the
            // new cursor.
            dsx >= 0 && final(self).instructions@.len() > 0 ==> instr_len_sum(
                final(self).past_instructions@.subrange(
                    old(self).past_instructions@.len() as int,
                    final(self).past_instructions@.len() as int,
                ),
            ) + final(self).instruction_s == old(self).instruction_s + dsx,
            // With nothing left to fly, the pose advances in a straight
            // line along its heading and the state is untouched.
            old(self).instructions@.len() == 0 && old(self).route@.len() == 0 ==> *final(self)
                == *old(self) && *final(kinematics) == *old(kinematics) && r == Pos2Angle(
                pos_ang.0.add_v(
                    dir_vec(pos_ang.1.0 as int).mul_div_v(dsx as int, SCALE as int),
                ).clamp_world_v(),
                pos_ang.1,
            ),
    {
        let mut carry: i64 = dsx;
        let mut pose = pos_ang;
        let ghost mut untouched: bool = true;
        proof {
            assert(self.past_instructions@.subrange(
                old(self).past_instructions@.len() as int,
                self.past_instructions@.len() as int,
            ) =~= Seq::empty());
        }
        loop
            invariant
                planner_wf(*self),
                pose2_wf(pose),
                model_motion.wf(),
                kinematics.wf(),
                kinematics.v == old(kinematics).v,
                kinematics.x_target == old(kinematics).x_target,
                config.wf(),
                abs_i(carry as int) <= CARRY_LIMIT,
                abs_i(z as int) <= COORD_LIMIT,
                self.route@.len() <= old(self).route@.len(),
                untouched ==> *self == *old(self) && *kinematics == *old(kinematics) && carry
                    == dsx && pose == pos_ang,
                old(self).instructions@.len() == 0 && old(self).route@.len() == 0 ==> untouched,
                self.past_pos@ == old(self).past_pos@,
                self.past_instructions@.len() >= old(self).past_instructions@.len(),
                self.past_instructions@.subrange(
                    0,
                    old(self).past_instructions@.len() as int,
                ) == old(self).past_instructions@,
                self.past_route@.len() >= old(self).past_route@.len(),
                self.past_route@.subrange(0, old(self).past_route@.len() as int) == old(self).past_route@,
                old(self).instructions@.len() > 0 && 0 <= old(self).instruction_s + dsx && old(self).instruction_s + dsx <= instr_len(old(self).instructions@[0]) ==> untouched,
                old(self).instructions@.len() > 0 && self.past_instructions@.len() > old(self).past_instructions@.len() ==> self.past_instructions@[old(self).past_instructions@.len() as int] == old(self).instructions@[0],
                old(self).instructions@.len() > 0 ==> untouched
                    || self.past_instructions@.len() > old(self).past_instructions@.len(),
                old(self).instructions@.len() == 0 && old(self).route@.len() > 0 ==> untouched
                    || (self.route@.len() < old(self).route@.len() && self.past_route@.len()
                    > old(self).past_route@.len() && self.past_route@[old(self).past_route@.len() as int] == old(self).route@[0]),
                planner_wf(*old(self)),
                abs_i(dsx as int) <= DS_LIMIT,
                dsx >= 0 ==> 0 <= carry && 0 <= instr_len_sum(
                    self.past_instructions@.subrange(
                        old(self).past_instructions@.len() as int,
                        self.past_instructions@.len() as int,
                    ),
                ) && instr_len_sum(
                    self.past_instructions@.subrange(
                        old(self).past_instructions@.len() as int,
                        self.past_instructions@.len() as int,
                    ),
                ) + self.instruction_s + carry == old(self).instruction_s + dsx,
            decreases 3 * self.route@.len() + self.instructions@.len(),
        {
            if self.instructions.len() == 0 {
                if self.route.len() > 0 {
                    let ghost pre_pr = self.past_route@;
                    let ghost pre_route_here = self.route@;
                    proof {
                        untouched = false;
                    }
                    self.compile_next(pose, model_motion, kinematics, config, z);
                    proof {
                        let np = old(self).past_route@.len() as int;
                        assert(forall|i: int|
                            0 <= i < pre_pr.len() ==> #[trigger] self.past_route@[i]
                                == pre_pr[i]);
                        assert(self.past_route@.subrange(0, np) =~= pre_pr.subrange(0, np));
                        if old(self).instructions@.len() == 0 && old(self).route@.len() > 0 {
                            if pre_pr == old(self).past_route@ {
                                assert(pre_route_here == old(self).route@);
                                assert(self.past_route@[old(self).past_route@.len() as int]
                                    == old(self).route@[0]);
                            }
                        }
                    }
                } else {
                    proof {
                        if old(self).instructions@.len() == 0 && old(self).route@.len() == 0 {
                            assert(untouched);
                        }
                    }
                    let c = pose.1.vec();
                    proof {
                        assert(abs_i(c.x * carry) <= (SCALE as int) * (
                        crate::pos::VEC_LIMIT as int) && abs_i(c.y * carry) <= (SCALE as int) * (
                        crate::pos::VEC_LIMIT as int)) by (nonlinear_arith)
                            requires
                                abs_i(c.x as int) <= SCALE,
                                abs_i(c.y as int) <= SCALE,
                                abs_i(carry as int) <= CARRY_LIMIT,
                        ;
                    }
                    let step = c.mul_div(carry, SCALE);
                    let npos = pose.0.plus(step).clamp_world();
                    return Pos2Angle(npos, pose.1);
                }
            } else {
                let snew: i64 = self.instruction_s + carry;
                let head_len = {
                    let head = &self.instructions[0];
                    head.length()
                };
                if 0 <= snew && snew <= head_len {
                    proof {
                        untouched = false;
                    }
                    self.instruction_s = snew;
                    let head = &self.instructions[0];
                    let smp = match head.sample(snew) {
                        Some(p) => p,
                        None => vstd::pervasive::unreached(),
                    };
                    return smp;
                } else {
                    proof {
                        untouched = false;
                        if dsx >= 0 {
                            // Forward displacement never saturates the
                            // carry: what remains is bounded by the cursor
                            // budget of this call.
                            assert(snew > head_len);
                            assert(0 < (snew as int) - (head_len as int) <= old(self).instruction_s + dsx);
                        }
                    }
                    carry = clamp128((snew as i128) - (head_len as i128), -CARRY_LIMIT,
                        CARRY_LIMIT);
                    self.instruction_s = 0;
                    let ghost pre_instr = self.instructions@;
                    let head = {
                        let h = &self.instructions[0];
                        let e = h.end();
                        pose = e;
                        match self.instructions.pop_front() {
                            Some(h2) => h2,
                            None => vstd::pervasive::unreached(),
                        }
                    };
                    proof {
                        assert(instrs_wf(self.instructions@)) by {
                            assert(forall|i: int|
                                0 <= i < self.instructions@.len()
                                    ==> #[trigger] self.instructions@[i] == pre_instr[i + 1]);
                        }
                    }
                    let ghost pre_past = self.past_instructions@;
                    self.past_instructions.push(head);
                    proof {
                        assert(self.past_instructions@.subrange(
                            0,
                            pre_past.len() as int,
                        ) =~= pre_past);
                        assert(self.past_instructions@.subrange(
                            0,
                            old(self).past_instructions@.len() as int,
                        ) =~= old(self).past_instructions@);
                        if dsx >= 0 {
                            let np = old(self).past_instructions@.len() as int;
                            let sub_new = self.past_instructions@.subrange(
                                np,
                                self.past_instructions@.len() as int,
                            );
                            let sub_old = pre_past.subrange(np, pre_past.len() as int);
                            assert(sub_new.drop_last() =~= sub_old);
                            assert(sub_new.last() == head);
                            assert(instr_len(head) == head_len as int);
                            assert(instr_len_sum(sub_new) == instr_len_sum(sub_old) + instr_len(
                                head,
                            ));
                        }
                    }
                }
            }
        }
    }
}

impl FlightInstruction {
    /// A structural copy of the instruction.
    pub fn clone_instr(&self) -> (r: FlightInstruction)
        ensures
            r == *self,
    {
        match self {
            FlightInstruction::Straight(ray) => FlightInstruction::Straight(
                Ray { tail: ray.tail, vec: ray.vec },
            ),
            FlightInstruction::Turn { origin, angle, radius } => FlightInstruction::Turn {
                origin: *origin,
                angle: *angle,
                radius: *radius,
            },
        }
    }
}

/// What one pose tick guarantees, as a relation between the position state
/// before and after: both axes advance by exactly one integration pass, the
/// altitude climbs by the clamped vertical displacement, the flown position
/// is recorded, and the planar pose tracks the plan.
pub open spec fn pos_ticked(pre: PlanePos, post: PlanePos, mm: ModelMotion, dt: int) -> bool {
    let (tsx, vx, dsx0) = crate::kinematics::axis_result(
        pre.kinematics.x_target@,
        pre.kinematics.v.x as int,
        mm.max_v.x as int,
        dt,
    );
    let (tsy, vy, dsy0) = crate::kinematics::axis_result(
        pre.kinematics.y_target@,
        pre.kinematics.v.y as int,
        mm.max_v.y as int,
        dt,
    );
    let dsxc = crate::kinematics::clamp_i(dsx0, DS_LIMIT as int);
    let dzc = crate::kinematics::clamp_i(dsy0, DS_LIMIT as int);
    let pose0 = Pos2Angle(Pos2 { x: pre.pos_ang.0.x, y: pre.pos_ang.0.y }, pre.pos_ang.1);
    let planar = Pos2Angle(Pos2 { x: post.pos_ang.0.x, y: post.pos_ang.0.y }, post.pos_ang.1);
    &&& post.wf()
    &&& post.planner.route@.len() <= pre.planner.route@.len()
    &&& post.planner.past_pos@ == pre.planner.past_pos@.push(pre.pos_ang.0)
    &&& post.kinematics.x_target@ == tsx
    &&& post.kinematics.v.x == vx
    &&& post.kinematics.v.y == vy
    &&& post.pos_ang.0.z == crate::kinematics::clamp_i(
        pre.pos_ang.0.z + dzc,
        COORD_LIMIT as int,
    )
    &&& (post.planner.instructions@.len() > 0 ==> planar == instr_sample(
        post.planner.instructions@[0],
        post.planner.instruction_s as int,
    ))
    &&& (pre.planner.instructions@.len() == 0 && pre.planner.route@.len() == 0 ==> planar
        == Pos2Angle(
        pose0.0.add_v(dir_vec(pose0.1.0 as int).mul_div_v(dsxc, SCALE as int)).clamp_world_v(),
        pose0.1,
    ) && post.kinematics.y_target@ == tsy)
    &&& (pre.planner.instructions@.len() > 0 && 0 <= pre.planner.instruction_s + dsxc
        && pre.planner.instruction_s + dsxc <= instr_len(pre.planner.instructions@[0]) ==> planar
        == instr_sample(pre.planner.instructions@[0], pre.planner.instruction_s + dsxc)
        && post.planner.instruction_s == pre.planner.instruction_s + dsxc
        && post.kinematics.y_target@ == tsy)
}

/// Pose, motion state and plan of one aircraft.
#[derive(Clone, Debug)]
pub struct PlanePos {
    pub pos_ang: Pos3Angle,
    pub kinematics: Kinematics,
    pub planner: FlightPlanner,
}

impl PlanePos {
    /// An acceptable aircraft position state.
    pub open spec fn wf(self) -> bool {
        pose3_wf(self.pos_ang) && self.kinematics.wf() && planner_wf(self.planner)
    }

    /// One tick: integrate the motion state, feed the longitudinal
    /// displacement through the planner, and climb by the vertical
    /// displacement.  Both axes advance by exactly one integration pass;
    /// the planar pose tracks the plan (the sample of the pending head
    /// instruction, or the straight-line fallback with nothing left to
    /// fly), and the altitude advances by the clamped vertical
    /// displacement.
    pub fn tick(&mut self, dt: i64, model_motion: ModelMotion, config: &Config)
        requires
            old(self).wf(),
            model_motion.wf(),
            config.wf(),
            0 < dt <= TICK_MAX,
        ensures
            final(self).wf(),
            final(self).planner.route@.len() <= old(self).planner.route@.len(),
            final(self).planner.past_pos@ == old(self).planner.past_pos@.push(
                old(self).pos_ang.0,
            ),
            ({
                let (tsx, vx, dsx0) = crate::kinematics::axis_result(
                    old(self).kinematics.x_target@,
                    old(self).kinematics.v.x as int,
                    model_motion.max_v.x as int,
                    dt as int,
                );
                let (tsy, vy, dsy0) = crate::kinematics::axis_result(
                    old(self).kinematics.y_target@,
                    old(self).kinematics.v.y as int,
                    model_motion.max_v.y as int,
                    dt as int,
                );
                let dsxc = crate::kinematics::clamp_i(dsx0, DS_LIMIT as int);
                let dzc = crate::kinematics::clamp_i(dsy0, DS_LIMIT as int);
                let pose0 = Pos2Angle(
                    Pos2 { x: old(self).pos_ang.0.x, y: old(self).pos_ang.0.y },
                    old(self).pos_ang.1,
                );
                let planar = Pos2Angle(
                    Pos2 { x: final(self).pos_ang.0.x, y: final(self).pos_ang.0.y },
                    final(self).pos_ang.1,
                );
                &&& final(self).kinematics.x_target@ == tsx
                &&& final(self).kinematics.v.x == vx
                &&& final(self).kinematics.v.y == vy
                &&& final(self).pos_ang.0.z == crate::kinematics::clamp_i(
                    old(self).pos_ang.0.z + dzc,
                    COORD_LIMIT as int,
                )
                &&& (final(self).planner.instructions@.len() > 0 ==> planar == instr_sample(
                    final(self).planner.instructions@[0],
                    final(self).planner.instruction_s as int,
                ))
                &&& (old(self).planner.instructions@.len() == 0 && old(self).planner.route@.len() == 0 ==> planar == Pos2Angle(
                    pose0.0.add_v(
                        dir_vec(pose0.1.0 as int).mul_div_v(dsxc, SCALE as int),
                    ).clamp_world_v(),
                    pose0.1,
                ) && final(self).kinematics.y_target@ == tsy)
                &&& (old(self).planner.instructions@.len() > 0 && 0 <= old(self).planner.instruction_s + dsxc && old(self).planner.instruction_s + dsxc
                    <= instr_len(old(self).planner.instructions@[0]) ==> planar == instr_sample(
                    old(self).planner.instructions@[0],
                    old(self).planner.instruction_s + dsxc,
                ) && final(self).planner.instruction_s == old(self).planner.instruction_s + dsxc
                    && final(self).kinematics.y_target@ == tsy)
            }),
            pos_ticked(*old(self), *final(self), model_motion, dt as int),
    {
        let ds = self.kinematics.tick(dt, model_motion);
        let dsx = clamp128(ds.x as i128, -DS_LIMIT, DS_LIMIT);
        let old_pos = self.pos_ang.0;
        let xz = self.planner.tick(
            dsx,
            self.pos_ang.to_2(),
            model_motion,
            &mut self.kinematics,
            config,
            self.pos_ang.0.z,
        );
        self.planner.past_pos.push(old_pos);
        let dz = clamp128(ds.y as i128, -DS_LIMIT, DS_LIMIT);
        let z2 = clamp128((self.pos_ang.0.z as i128) + (dz as i128), -COORD_LIMIT, COORD_LIMIT);
        self.pos_ang = xz.to_3(z2);
    }
}

} // verus!
