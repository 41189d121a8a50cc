//! One aircraft: pose and motion state, flight plan, phase state machine and
//! the coordination-event protocol with airports.

use std::collections::VecDeque;

use vstd::prelude::*;

use crate::config::Config;
use crate::kinematics::{Kinematics, Target, DS_LIMIT, DUR_LIMIT, TIME_LIMIT};
use crate::num::{abs_i, clamp128, mul_i64, sqrt_floor, tdiv, tdiv128};
use crate::plane_pos::{
    instr_wf, instrs_wf, FlightInstruction, FlightPlanner, PlanePos, LEN_LIMIT,
};
use crate::angle::Angle;
use crate::pos::{dist2, Pos2, Pos2Angle, Pos3, Pos3Angle, COORD_LIMIT};
use crate::ray::Ray;
use crate::world_data::{Flight, PlaneData, Runway, WorldData, ACC_LIMIT, VEL_LIMIT};

verus! {

/// The operational phase of an aircraft; exactly one is active per tick.
#[derive(Clone, Debug)]
pub enum PhaseData {
    Takeoff { runway: Runway },
    Cruise,
    Descent,
    Landing { runway: Runway },
}

/// How far a phase has progressed through the flight.
pub open spec fn phase_rank(p: PhaseData) -> int {
    match p {
        PhaseData::Takeoff { .. } => 0,
        PhaseData::Cruise => 1,
        PhaseData::Descent => 2,
        PhaseData::Landing { .. } => 3,
    }
}

impl PhaseData {
    /// The phase's display name.
    pub fn str(&self) -> (r: &'static str)
        ensures
            self is Takeoff ==> r@ == "Takeoff"@,
            self is Cruise ==> r@ == "Cruise"@,
            self is Descent ==> r@ == "Descent"@,
            self is Landing ==> r@ == "Landing"@,
    {
        match self {
            PhaseData::Takeoff { .. } => "Takeoff",
            PhaseData::Cruise => "Cruise",
            PhaseData::Descent => "Descent",
            PhaseData::Landing { .. } => "Landing",
        }
    }

    /// A copy of the phase, equal as a value.
    pub fn clone_phase(&self) -> (r: PhaseData)
        ensures
            r == *self,
    {
        match self {
            PhaseData::Takeoff { runway } => PhaseData::Takeoff { runway: runway.clone_rw() },
            PhaseData::Cruise => PhaseData::Cruise,
            PhaseData::Descent => PhaseData::Descent,
            PhaseData::Landing { runway } => PhaseData::Landing { runway: runway.clone_rw() },
        }
    }

    /// The runway payload, if the phase carries one, is valid.
    pub open spec fn wf(self) -> bool {
        match self {
            PhaseData::Takeoff { runway } => runway.wf(),
            PhaseData::Landing { runway } => runway.wf(),
            _ => true,
        }
    }
}

/// An event delivered to an aircraft.
#[derive(Clone, Debug)]
pub struct PlaneEvent {
    pub from: String,
    pub payload: PlaneEventPayload,
}

/// What an airport can tell an aircraft.
#[derive(Clone, Debug)]
#[non_exhaustive]
pub enum PlaneEventPayload {
    ClearForLanding(Runway),
}

/// An event delivered to an airport.
#[derive(Clone, Debug)]
pub struct AirportEvent {
    pub from: u128,
    pub payload: AirportEventPayload,
}

/// What an aircraft can ask of an airport.
#[derive(Clone, Copy, Debug, PartialEq, Eq, Structural)]
#[non_exhaustive]
pub enum AirportEventPayload {
    RequestRunway,
}

/// A valid inbound plane event: any carried runway is valid.
pub open spec fn plane_event_wf(e: PlaneEvent) -> bool {
    match e.payload {
        PlaneEventPayload::ClearForLanding(runway) => runway.wf(),
    }
}

/// Every event of the queue is valid.
pub open spec fn plane_events_wf(s: Seq<PlaneEvent>) -> bool {
    forall|i: int| 0 <= i < s.len() ==> plane_event_wf(#[trigger] s[i])
}

/// Some event of the queue clears the aircraft to land.
pub open spec fn has_clearance(s: Seq<PlaneEvent>) -> bool
    decreases s.len(),
{
    if s.len() == 0 {
        false
    } else {
        s.last().payload is ClearForLanding || has_clearance(s.drop_last())
    }
}

/// The result of draining the inbound event queue.
pub struct PlaneEventsResult {
    pub landing_runway: Option<Runway>,
}

/// What a phase handler decided this tick.
pub enum PlanePhaseResult {
    NoChange,
    Remove,
    NewPhase(PhaseData),
}

/// One aircraft of the simulation.
#[derive(Clone, Debug)]
pub struct Plane {
    pub id: u128,
    pub pos: PlanePos,
    pub model: PlaneData,
    pub flight: Flight,
    pub phase: PhaseData,
    pub events: VecDeque<PlaneEvent>,
    pub start_time: u64,
}

/// Along-runway progress has reached three quarters of the runway length.
pub open spec fn takeoff_progressed(pos: Pos2, runway: Runway) -> bool {
    4 * sqrt_floor(dist2(pos, runway.start)) >= 3 * sqrt_floor(dist2(runway.start, runway.end))
}

/// The aircraft is cruising with its plan exhausted: the state in which a
/// tick asks the destination airport for a runway.
pub open spec fn cruise_idle(p: Plane) -> bool {
    p.phase is Cruise && p.pos.planner.route@.len() == 0 && p.pos.planner.instructions@.len()
        == 0
}

/// The landing roll is over: the plan is exhausted or the longitudinal
/// velocity has decayed below a tenth of the maximum.
pub open spec fn landing_done(p: Plane) -> bool {
    p.pos.planner.instructions@.len() == 0 || p.pos.kinematics.v.x < tdiv(
        p.model.motion.max_v.x as int,
        10,
    )
}

/// The extended final-approach ray of a runway: from one runway length
/// before the threshold through to the far end (the bare runway when the
/// extension collapses at the world edge).
pub open spec fn approach_ray_spec(rw: Runway) -> FlightInstruction {
    let rvec = rw.end.sub_v(rw.start);
    let tail = rw.start.sub_v(rvec).clamp_world_v();
    let head = rw.end.clamp_world_v();
    if tail == head {
        FlightInstruction::Straight(Ray { tail: rw.start, vec: rw.end.sub_v(rw.start) })
    } else {
        FlightInstruction::Straight(Ray { tail, vec: head.sub_v(tail) })
    }
}

/// Where the final approach begins.
pub open spec fn approach_tail_spec(rw: Runway) -> Pos2 {
    match approach_ray_spec(rw) {
        FlightInstruction::Straight(ray) => ray.tail,
        FlightInstruction::Turn { origin, .. } => origin.0,
    }
}

/// The approach speed cap: three quarters of the model's full speed.
pub open spec fn approach_cap(mm: crate::world_data::ModelMotion) -> int {
    tdiv(3 * mm.max_v.x, 4)
}

/// A solver outcome as the axis sees it: the segments on success, a
/// coasting (empty) list on a rejected request.
pub open spec fn solved_or_empty(
    s: Result<Seq<Target>, crate::kinematics::KinematicsError>,
) -> Seq<Target> {
    match s {
        Ok(ss) => ss,
        Err(e) => Seq::empty(),
    }
}

/// How a phase handler may have adjusted the position state before the
/// motion pass: it may only lay down new instructions and retarget the
/// acceleration segments — pose, velocity, cursor, route and history stay.
pub open spec fn handler_adjusted(pre: PlanePos, mid: PlanePos) -> bool {
    &&& mid.pos_ang == pre.pos_ang
    &&& mid.kinematics.v == pre.kinematics.v
    &&& mid.planner.route == pre.planner.route
    &&& mid.planner.instruction_s == pre.planner.instruction_s
    &&& mid.planner.past_pos == pre.planner.past_pos
    &&& mid.planner.past_instructions == pre.planner.past_instructions
    &&& mid.planner.past_route == pre.planner.past_route
    &&& mid.planner.instructions@.len() >= pre.planner.instructions@.len()
    &&& mid.planner.instructions@.subrange(0, pre.planner.instructions@.len() as int)
        == pre.planner.instructions@
}

/// What one aircraft tick guarantees, as a relation between the aircraft
/// before and after, the removal verdict, and the configuration: the phase
/// machine of the transition rules, removal exactly on a finished landing
/// roll, and one motion pass over the handler-adjusted state — so every
/// tick demonstrably advances the aircraft.
pub open spec fn plane_ticked(pre: Plane, post: Plane, removed: bool, config: Config) -> bool {
    &&& post.wf()
    &&& post.id == pre.id
    &&& post.events@.len() == 0
    &&& (phase_rank(post.phase) == phase_rank(pre.phase) || phase_rank(post.phase) == phase_rank(
        pre.phase,
    ) + 1)
    &&& (post.phase is Landing && !(pre.phase is Landing) ==> has_clearance(pre.events@)
        && pre.phase is Descent)
    &&& (removed <==> pre.phase is Landing && landing_done(pre))
    &&& (removed ==> post.phase is Landing)
    &&& (pre.phase matches PhaseData::Takeoff { runway } ==> (post.phase is Cruise
        <==> takeoff_progressed(
        Pos2 { x: pre.pos.pos_ang.0.x, y: pre.pos.pos_ang.0.y },
        runway,
    )))
    &&& (pre.phase is Descent && !has_clearance(pre.events@) ==> post.phase is Descent)
    &&& post.model.motion == pre.model.motion
    &&& exists|mid: PlanePos|
        #[trigger] crate::plane_pos::pos_ticked(
            mid,
            post.pos,
            pre.model.motion,
            config.tick_duration as int,
        ) && handler_adjusted(pre.pos, mid)
    &&& post.pos.planner.past_pos@ == pre.pos.planner.past_pos@.push(pre.pos.pos_ang.0)
}

/// The cruising altitude chosen on leaving the runway: toward the last
/// waypoint already flown, else the next one pending, else the minimum band.
pub open spec fn climb_altitude_spec(p: Plane, config: Config) -> int {
    let plane_pos = Pos2 { x: p.pos.pos_ang.0.x, y: p.pos.pos_ang.0.y };
    if p.pos.planner.past_route@.len() > 0 {
        crate::config::cruising_altitude_spec(
            config,
            plane_pos,
            p.pos.planner.past_route@.last().pos,
        )
    } else if p.pos.planner.route@.len() > 0 {
        crate::config::cruising_altitude_spec(config, plane_pos, p.pos.planner.route@[0].pos)
    } else {
        crate::config::min_cruising_altitude_spec(config)
    }
}

impl Plane {
    /// A valid aircraft state.
    pub open spec fn wf(self) -> bool {
        &&& self.pos.wf()
        &&& self.model.motion.wf()
        &&& self.phase.wf()
        &&& plane_events_wf(self.events@)
    }

    /// A new aircraft at the start of the given runway, cleared to
    /// accelerate to full speed along it, with a waypoint route from the
    /// runway's far end toward the destination airport.
    pub fn new(model: &PlaneData, flight: &Flight, runway: &Runway, wd: &WorldData) -> (r: Plane)
        requires
            model.motion.wf(),
            runway.wf(),
            wd.wf(),
        ensures
            r.wf(),
            r.phase matches PhaseData::Takeoff { runway: rw } && rw.wf() && rw == *runway,
            r.events@.len() == 0,
            r.model.motion == model.motion,
            r.model.id == model.id,
            r.flight.to == flight.to,
            r.flight.from == flight.from,
            // The aircraft starts at the runway threshold, heading along it.
            r.pos.pos_ang == Pos3Angle(
                Pos3 { x: runway.start.x, y: runway.start.y, z: runway.altitude },
                Angle(
                    crate::angle::atan2_ur(
                        runway.end.y - runway.start.y,
                        runway.end.x - runway.start.x,
                    ) as i64,
                ),
            ),
            // The plan is the takeoff roll along the runway, cursor at its
            // start, with no history.
            r.pos.planner.instructions@ =~= seq![
                FlightInstruction::Straight(
                    Ray { tail: runway.start, vec: runway.end.sub_v(runway.start) },
                ),
            ],
            r.pos.planner.instruction_s == 0,
            r.pos.planner.past_instructions@.len() == 0,
            r.pos.planner.past_route@.len() == 0,
            r.pos.planner.past_pos@.len() == 0,
            // The route is a connected chain through the waypoint graph,
            // chosen by the router: it enters at the biased-nearest waypoint
            // to the runway's far end and leaves at the biased-nearest one
            // to the destination airport's centre.
            r.pos.planner.route@.len() == 0 || crate::world_data::route_linked(
                r.pos.planner.route@,
            ),
            ({
                let c = crate::world_data::dest_centre(*wd, flight.to@);
                let rt = r.pos.planner.route@;
                &&& (rt.len() == 0 || exists|e: int|
                    crate::world_data::is_first_nearest(wd.waypoints@, c, runway.end, e)
                        && crate::world_data::wp_eq(rt[rt.len() - 1], wd.waypoints@[e]))
                &&& (rt.len() == 0 || exists|sx: int|
                    crate::world_data::is_first_nearest(wd.waypoints@, runway.end, c, sx)
                        && crate::world_data::wp_eq(rt[0], wd.waypoints@[sx]))
            }),
            // At rest, cleared to accelerate to full speed along the roll.
            r.pos.kinematics.v == (Pos2 { x: 0, y: 0 }),
            r.pos.kinematics.y_target@.len() == 0,
            r.pos.kinematics.x_target@ == solved_or_empty(
                crate::kinematics::solve_targets(
                    Some(model.motion.max_v.x),
                    None::<i64>,
                    None::<i64>,
                    model.motion.max_v.x as int,
                    model.motion.max_a.x as int,
                    0,
                ),
            ),
    {
        let heading = runway.end.minus(runway.start).to_angle();
        let pos_ang_start = Pos3Angle(runway.start3(), heading);
        let pos_ang_end = Pos2Angle(runway.end, heading);
        let centre = match wd.airport(&flight.to) {
            Some(a) => a.centre(),
            None => Pos2::zero(),
        };
        proof {
            assert(centre == crate::world_data::dest_centre(*wd, flight.to@)) by {
                if exists|i: int|
                    crate::world_data::is_first_airport(wd.airports@, flight.to@, i) {
                    let i0 = choose|i: int|
                        crate::world_data::is_first_airport(wd.airports@, flight.to@, i);
                    let iw = choose|i: int|
                        #[trigger] crate::world_data::is_first_airport(
                            wd.airports@,
                            flight.to@,
                            i,
                        ) && wd.airports@[i].code@ == flight.to@;
                    assert(i0 == iw) by {
                        if i0 < iw {
                            assert(wd.airports@[i0].code@ != flight.to@);
                        }
                        if iw < i0 {
                            assert(wd.airports@[iw].code@ != flight.to@);
                        }
                    }
                }
            }
        }
        let route = wd.find_waypoint_route(pos_ang_end, centre);
        let mut instructions: VecDeque<FlightInstruction> = VecDeque::new();
        let roll = FlightInstruction::Straight(runway.ray());
        proof {
            assert(dist2(runway.end.sub_v(runway.start), Pos2 { x: 0, y: 0 }) >= 1)
                by (nonlinear_arith)
                requires
                    runway.start != runway.end,
                    abs_i(runway.start.x as int) <= COORD_LIMIT,
                    abs_i(runway.start.y as int) <= COORD_LIMIT,
                    abs_i(runway.end.x as int) <= COORD_LIMIT,
                    abs_i(runway.end.y as int) <= COORD_LIMIT,
            ;
            assert(instr_wf(roll));
        }
        instructions.push_back(roll);
        let mut kinematics = Kinematics::new();
        let _ = kinematics.target_x(Some(model.motion.max_v.x), None, None, None, model.motion);
        Plane {
            id: crate::rng::new_state_id(),
            pos: PlanePos {
                pos_ang: pos_ang_start,
                kinematics,
                planner: FlightPlanner::new(instructions, route),
            },
            model: model.clone_pd(),
            flight: flight.clone_fl(),
            phase: PhaseData::Takeoff { runway: runway.clone_rw() },
            events: VecDeque::new(),
            start_time: crate::rng::now_secs(),
        }
    }

    /// Drains the inbound queue; the last landing clearance wins.
    fn handle_events(&mut self) -> (r: PlaneEventsResult)
        requires
            plane_events_wf(old(self).events@),
        ensures
            final(self).events@.len() == 0,
            final(self).id == old(self).id,
            final(self).pos == old(self).pos,
            final(self).model == old(self).model,
            final(self).flight == old(self).flight,
            final(self).phase == old(self).phase,
            r.landing_runway is Some <==> has_clearance(old(self).events@),
            r.landing_runway matches Some(rw) ==> rw.wf(),
    {
        let ghost evs = self.events@;
        let mut landing_runway: Option<Runway> = None;
        let n = self.events.len();
        let mut i: usize = 0;
        while i < n
            invariant
                plane_events_wf(evs),
                self.events@ == evs,
                n == evs.len(),
                0 <= i <= n,
                landing_runway is Some <==> has_clearance(evs.take(i as int)),
                landing_runway matches Some(rw) ==> rw.wf(),
            decreases n - i,
        {
            let ev = &self.events[i];
            match &ev.payload {
                PlaneEventPayload::ClearForLanding(runway) => {
                    proof {
                        assert(plane_event_wf(evs[i as int]));
                    }
                    landing_runway = Some(runway.clone_rw());
                },
            }
            proof {
                assert(evs.take(i as int + 1).drop_last() =~= evs.take(i as int));
                assert(evs.take(i as int + 1).last() == evs[i as int]);
            }
            i = i + 1;
        }
        self.events.clear();
        proof {
            assert(evs.take(n as int) =~= evs);
        }
        PlaneEventsResult { landing_runway }
    }

    /// Takeoff: once three quarters of the runway has passed, climb to the
    /// leg's cruising altitude and enter cruise.
    fn handle_takeoff_phase(&mut self, config: &Config, runway: &Runway) -> (r: PlanePhaseResult)
        requires
            old(self).wf(),
            config.wf(),
            runway.wf(),
        ensures
            final(self).wf(),
            final(self).id == old(self).id,
            final(self).phase == old(self).phase,
            final(self).flight == old(self).flight,
            final(self).model == old(self).model,
            final(self).events == old(self).events,
            r is NewPhase <==> takeoff_progressed(
                Pos2 { x: old(self).pos.pos_ang.0.x, y: old(self).pos.pos_ang.0.y },
                *runway,
            ),
            r matches PlanePhaseResult::NewPhase(p) ==> p is Cruise,
            !(r is Remove),
            takeoff_progressed(
                Pos2 { x: old(self).pos.pos_ang.0.x, y: old(self).pos.pos_ang.0.y },
                *runway,
            ) == false ==> *final(self) == *old(self),
            // On the transition, the vertical axis is retargeted to climb
            // to the leg's cruising altitude; nothing else moves.
            takeoff_progressed(
                Pos2 { x: old(self).pos.pos_ang.0.x, y: old(self).pos.pos_ang.0.y },
                *runway,
            ) ==> ({
                let dsv = crate::kinematics::clamp_i(
                    climb_altitude_spec(*old(self), *config) - old(self).pos.pos_ang.0.z,
                    DS_LIMIT as int,
                );
                &&& final(self).pos.kinematics.y_target@ == solved_or_empty(
                    crate::kinematics::solve_targets(
                        Some(0i64),
                        Some(dsv as i64),
                        None::<i64>,
                        old(self).model.motion.max_v.y as int,
                        old(self).model.motion.max_a.y as int,
                        old(self).pos.kinematics.v.y as int,
                    ),
                )
                &&& final(self).pos.kinematics.x_target == old(self).pos.kinematics.x_target
                &&& final(self).pos.kinematics.v == old(self).pos.kinematics.v
                &&& final(self).pos.pos_ang == old(self).pos.pos_ang
                &&& final(self).pos.planner == old(self).pos.planner
            }),
    {
        let plane_pos = self.pos.pos_ang.to_2().0;
        let travelled = plane_pos.distance(runway.start);
        let full = runway.len();
        proof {
            assert(dist2(plane_pos, runway.start) <= 8 * ((COORD_LIMIT as int) * (
            COORD_LIMIT as int)) && dist2(runway.start, runway.end) <= 8 * ((COORD_LIMIT as int)
                * (COORD_LIMIT as int))) by (nonlinear_arith)
                requires
                    abs_i(plane_pos.x as int) <= COORD_LIMIT,
                    abs_i(plane_pos.y as int) <= COORD_LIMIT,
                    abs_i(runway.start.x as int) <= COORD_LIMIT,
                    abs_i(runway.start.y as int) <= COORD_LIMIT,
                    abs_i(runway.end.x as int) <= COORD_LIMIT,
                    abs_i(runway.end.y as int) <= COORD_LIMIT,
            ;
            assert(travelled <= 3_000_000_000_000_000int && full <= 3_000_000_000_000_000int)
                by (nonlinear_arith)
                requires
                    0 <= travelled,
                    0 <= full,
                    (travelled as int) * (travelled as int) <= dist2(plane_pos, runway.start),
                    (full as int) * (full as int) <= dist2(runway.start, runway.end),
                    dist2(plane_pos, runway.start) <= 8 * ((COORD_LIMIT as int) * (
                    COORD_LIMIT as int)),
                    dist2(runway.start, runway.end) <= 8 * ((COORD_LIMIT as int) * (
                    COORD_LIMIT as int)),
            ;
        }
        if 4 * travelled < 3 * full {
            return PlanePhaseResult::NoChange;
        }
        let target_pos: Option<Pos2> = if self.pos.planner.past_route.len() > 0 {
            Some(self.pos.planner.past_route[self.pos.planner.past_route.len() - 1].pos)
        } else if self.pos.planner.route.len() > 0 {
            Some(self.pos.planner.route[0].pos)
        } else {
            None
        };
        let cruising_altitude = match target_pos {
            Some(p) => config.cruising_altitude(plane_pos, p),
            None => config.min_cruising_altitude(),
        };
        let ds = clamp128(
            (cruising_altitude as i128) - (self.pos.pos_ang.0.z as i128),
            -DS_LIMIT,
            DS_LIMIT,
        );
        let _ = self.pos.kinematics.target_y(Some(0), Some(ds), None, None, self.model.motion);
        PlanePhaseResult::NewPhase(PhaseData::Cruise)
    }

    /// Cruise: when the plan and route are exhausted, ask the destination
    /// airport for a runway and slow to three quarters of full speed.
    fn handle_cruise_phase(&mut self, send: &mut Vec<(String, AirportEvent)>) -> (r:
        PlanePhaseResult)
        requires
            old(self).wf(),
        ensures
            final(self).wf(),
            final(self).id == old(self).id,
            final(self).phase == old(self).phase,
            final(self).flight == old(self).flight,
            final(self).model == old(self).model,
            final(self).events == old(self).events,
            !(r is Remove),
            ({
                let idle = old(self).pos.planner.route@.len() == 0
                    && old(self).pos.planner.instructions@.len() == 0;
                if idle {
                    r matches PlanePhaseResult::NewPhase(p) && p is Descent
                        && final(send)@.len() == old(send)@.len() + 1 && final(send)@.last().0@
                        == old(self).flight.to@ && final(send)@.last().1.from == old(self).id
                        && final(send)@.last().1.payload is RequestRunway
                        && final(send)@.subrange(0, old(send)@.len() as int) == old(send)@
                        // Slow to three quarters of full speed; nothing
                        // else moves.
                        && final(self).pos.kinematics.x_target@ == solved_or_empty(
                        crate::kinematics::solve_targets(
                            Some(approach_cap(old(self).model.motion) as i64),
                            None::<i64>,
                            None::<i64>,
                            old(self).model.motion.max_v.x as int,
                            old(self).model.motion.max_a.x as int,
                            old(self).pos.kinematics.v.x as int,
                        ),
                    ) && final(self).pos.kinematics.y_target == old(self).pos.kinematics.y_target
                        && final(self).pos.kinematics.v == old(self).pos.kinematics.v
                        && final(self).pos.pos_ang == old(self).pos.pos_ang && final(self).pos.planner == old(self).pos.planner
                } else {
                    r is NoChange && *final(self) == *old(self) && *final(send) == *old(send)
                }
            }),
    {
        if self.pos.planner.route.len() > 0 || self.pos.planner.instructions.len() > 0 {
            return PlanePhaseResult::NoChange;
        }
        let code = clone_string(&self.flight.to);
        send.push(
            (code, AirportEvent { from: self.id, payload: AirportEventPayload::RequestRunway }),
        );
        proof {
            assert(final(send)@.subrange(0, old(send)@.len() as int) =~= old(send)@);
        }
        proof {
            crate::num::lemma_tdiv_abs(3 * (self.model.motion.max_v.x as int), 4, VEL_LIMIT as int);
        }
        let cap = tdiv128(3 * (self.model.motion.max_v.x as i128), 4);
        let _ = self.pos.kinematics.target_x(
            Some(cap as i64),
            None,
            None,
            None,
            self.model.motion,
        );
        PlanePhaseResult::NewPhase(PhaseData::Descent)
    }

    /// Descent: on a landing clearance, compose the final approach (a
    /// minimum-radius connector onto an extended final ray one runway length
    /// before the threshold), size the deceleration to stop within three
    /// quarters of the runway, and enter landing.
    ///
    /// The connector aims at the final ray's start point with a free end
    /// heading: the sampled heading snaps to the ray's own direction at the
    /// handoff rather than arriving pre-aligned.  This keeps the planner's
    /// single turn-plus-tangent form; the kink is confined to the moment
    /// the final ray takes over.
    fn handle_descent_phase(&mut self, ev_result: &PlaneEventsResult) -> (r: PlanePhaseResult)
        requires
            old(self).wf(),
            ev_result.landing_runway matches Some(rw) ==> rw.wf(),
        ensures
            final(self).wf(),
            final(self).id == old(self).id,
            final(self).phase == old(self).phase,
            final(self).flight == old(self).flight,
            final(self).model == old(self).model,
            final(self).events == old(self).events,
            !(r is Remove),
            ev_result.landing_runway is None ==> r is NoChange && *final(self) == *old(self),
            ev_result.landing_runway matches Some(rw) ==> (r matches PlanePhaseResult::NewPhase(p)
                && p matches PhaseData::Landing { runway: rw2 } && rw2 == rw),
            ev_result.landing_runway matches Some(rw) ==> rw.wf(),
            // On a clearance, the final approach is composed and the
            // deceleration targets laid down: the plan is extended by the
            // connector toward the approach start and the extended final
            // ray; the horizontal axis is retargeted to reach the
            // touchdown point at approach speed, with the touchdown
            // deceleration appended; the vertical axis is retargeted to
            // reach the runway altitude in the horizontal profile's time.
            ev_result.landing_runway matches Some(rw) ==> ({
                let mm = old(self).model.motion;
                let pose0 = Pos2Angle(
                    Pos2 { x: old(self).pos.pos_ang.0.x, y: old(self).pos.pos_ang.0.y },
                    old(self).pos.pos_ang.1,
                );
                let new_instrs = old(self).pos.planner.instructions@
                    + crate::plane_pos::plan_spec(pose0, approach_tail_spec(rw), mm) + seq![
                    approach_ray_spec(rw),
                ];
                let touchdown = 3 * (sqrt_floor(dist2(rw.start, rw.end)) / 4);
                let sum0 = crate::plane_pos::instr_len_sum(new_instrs);
                let total = if sum0 <= DS_LIMIT {
                    sum0
                } else {
                    DS_LIMIT as int
                };
                let dsv = crate::kinematics::clamp_i(total - touchdown, DS_LIMIT as int);
                let cap = approach_cap(mm);
                let xs = solved_or_empty(
                    crate::kinematics::solve_targets(
                        Some(cap as i64),
                        Some(dsv as i64),
                        None::<i64>,
                        mm.max_v.x as int,
                        mm.max_a.x as int,
                        old(self).pos.kinematics.v.x as int,
                    ),
                );
                let sum_x = crate::kinematics::sum_dt(xs);
                let dt_sum = if sum_x <= TIME_LIMIT {
                    sum_x
                } else {
                    TIME_LIMIT as int
                };
                let dtv = if dt_sum < 1 {
                    1int
                } else if dt_sum > DUR_LIMIT {
                    DUR_LIMIT as int
                } else {
                    dt_sum
                };
                let dzv = crate::kinematics::clamp_i(
                    rw.altitude - old(self).pos.pos_ang.0.z,
                    DS_LIMIT as int,
                );
                let ld = if touchdown < 1 {
                    1int
                } else {
                    touchdown
                };
                let decel = crate::kinematics::mk_target(
                    tdiv(1 - cap * cap, 2 * ld),
                    tdiv(2000 * ld, cap + 1),
                );
                &&& final(self).pos.planner.instructions@ == new_instrs
                &&& final(self).pos.planner.route == old(self).pos.planner.route
                &&& final(self).pos.planner.instruction_s == old(self).pos.planner.instruction_s
                &&& final(self).pos.planner.past_instructions == old(self).pos.planner.past_instructions
                &&& final(self).pos.planner.past_route == old(self).pos.planner.past_route
                &&& final(self).pos.planner.past_pos == old(self).pos.planner.past_pos
                &&& final(self).pos.kinematics.x_target@ == xs.push(decel)
                &&& final(self).pos.kinematics.y_target@ == solved_or_empty(
                    crate::kinematics::solve_targets(
                        Some(0i64),
                        Some(dzv as i64),
                        Some(dtv as i64),
                        mm.max_v.y as int,
                        mm.max_a.y as int,
                        old(self).pos.kinematics.v.y as int,
                    ),
                )
                &&& final(self).pos.kinematics.v == old(self).pos.kinematics.v
                &&& final(self).pos.pos_ang == old(self).pos.pos_ang
            }),
    {
        let landing_runway = match &ev_result.landing_runway {
            Some(rw) => rw,
            None => {
                return PlanePhaseResult::NoChange;
            },
        };
        let rvec = landing_runway.end.minus(landing_runway.start);
        let tail = landing_runway.start.minus(rvec).clamp_world();
        let head = landing_runway.end.clamp_world();
        // The extended final: from one runway length before the threshold,
        // through the threshold, to the far end.
        let final_ray: FlightInstruction = if tail.x == head.x && tail.y == head.y {
            FlightInstruction::Straight(Ray::new(landing_runway.start, landing_runway.end))
        } else {
            FlightInstruction::Straight(Ray::new(tail, head))
        };
        proof {
            assert(instr_wf(final_ray)) by {
                assert(landing_runway.start.x != landing_runway.end.x || landing_runway.start.y
                    != landing_runway.end.y);
                assert(dist2(
                    landing_runway.end.sub_v(landing_runway.start),
                    Pos2 { x: 0, y: 0 },
                ) >= 1) by (nonlinear_arith)
                    requires
                        landing_runway.start.x != landing_runway.end.x || landing_runway.start.y
                            != landing_runway.end.y,
                        abs_i(landing_runway.start.x as int) <= COORD_LIMIT,
                        abs_i(landing_runway.start.y as int) <= COORD_LIMIT,
                        abs_i(landing_runway.end.x as int) <= COORD_LIMIT,
                        abs_i(landing_runway.end.y as int) <= COORD_LIMIT,
                ;
                if !(tail.x == head.x && tail.y == head.y) {
                    assert(dist2(head.sub_v(tail), Pos2 { x: 0, y: 0 }) >= 1)
                        by (nonlinear_arith)
                        requires
                            tail.x != head.x || tail.y != head.y,
                            abs_i(tail.x as int) <= COORD_LIMIT,
                            abs_i(tail.y as int) <= COORD_LIMIT,
                            abs_i(head.x as int) <= COORD_LIMIT,
                            abs_i(head.y as int) <= COORD_LIMIT,
                    ;
                }
            }
        }
        proof {
            assert(final_ray == approach_ray_spec(*landing_runway));
        }
        let approach_target = match &final_ray {
            FlightInstruction::Straight(ray) => ray.tail,
            FlightInstruction::Turn { .. } => vstd::pervasive::unreached(),
        };
        proof {
            assert(approach_target == approach_tail_spec(*landing_runway));
        }
        let connector = FlightPlanner::plan_to_pos2(
            self.pos.pos_ang.to_2(),
            approach_target,
            self.model.motion,
        );
        let ghost pre_instrs = self.pos.planner.instructions@;
        let mut k: usize = 0;
        while k < connector.len()
            invariant
                0 <= k <= connector@.len(),
                instrs_wf(connector@),
                self.wf(),
                self.id == old(self).id,
                self.phase == old(self).phase,
                self.flight == old(self).flight,
                self.model == old(self).model,
                self.events == old(self).events,
                self.pos.planner.instructions@ == pre_instrs + connector@.take(k as int),
                self.pos.planner.route == old(self).pos.planner.route,
                self.pos.planner.instruction_s == old(self).pos.planner.instruction_s,
                self.pos.planner.past_instructions == old(self).pos.planner.past_instructions,
                self.pos.planner.past_route == old(self).pos.planner.past_route,
                self.pos.planner.past_pos == old(self).pos.planner.past_pos,
                self.pos.kinematics == old(self).pos.kinematics,
                self.pos.pos_ang == old(self).pos.pos_ang,
            decreases connector@.len() - k,
        {
            let ghost pre = self.pos.planner.instructions@;
            let ins = connector[k].clone_instr();
            self.pos.planner.instructions.push_back(ins);
            proof {
                assert(instrs_wf(self.pos.planner.instructions@)) by {
                    assert(forall|i: int|
                        0 <= i < pre.len() ==> #[trigger] self.pos.planner.instructions@[i]
                            == pre[i]);
                    assert(self.pos.planner.instructions@[pre.len() as int] == ins);
                }
                assert(self.pos.planner.instructions@ =~= pre_instrs + connector@.take(
                    k as int + 1,
                ));
            }
            k = k + 1;
        }
        let ghost pre2 = self.pos.planner.instructions@;
        self.pos.planner.instructions.push_back(final_ray);
        proof {
            assert(instrs_wf(self.pos.planner.instructions@)) by {
                assert(forall|i: int|
                    0 <= i < pre2.len() ==> #[trigger] self.pos.planner.instructions@[i]
                        == pre2[i]);
            }
            assert(connector@.take(connector@.len() as int) =~= connector@);
            assert(self.pos.planner.instructions@ =~= pre_instrs + connector@ + seq![
                final_ray,
            ]);
        }
        let touchdown_length = 3 * (landing_runway.len() / 4);
        let total = self.total_plan_length();
        let ds = clamp128((total as i128) - (touchdown_length as i128), -DS_LIMIT, DS_LIMIT);
        proof {
            crate::num::lemma_tdiv_abs(3 * (self.model.motion.max_v.x as int), 4, VEL_LIMIT as int);
        }
        let cap = tdiv128(3 * (self.model.motion.max_v.x as i128), 4) as i64;
        let _ = self.pos.kinematics.target_x(Some(cap), Some(ds), None, None, self.model.motion);
        let dt_sum = Target::sum_t(&self.pos.kinematics.x_target);
        let dt = if dt_sum < 1 {
            1
        } else if dt_sum > DUR_LIMIT {
            DUR_LIMIT
        } else {
            dt_sum
        };
        let dz = clamp128(
            (landing_runway.altitude as i128) - (self.pos.pos_ang.0.z as i128),
            -DS_LIMIT,
            DS_LIMIT,
        );
        let _ = self.pos.kinematics.target_y(
            Some(0),
            Some(dz),
            Some(dt),
            None,
            self.model.motion,
        );
        // Touchdown deceleration from approach speed to near rest within the
        // touchdown length.
        let qq = mul_i64(cap, cap);
        let decel_a = clamp128(
            tdiv128(1 - qq, 2 * ((if touchdown_length < 1 {
                1i64
            } else {
                touchdown_length
            }) as i128)),
            -ACC_LIMIT,
            ACC_LIMIT,
        );
        let decel_dt = clamp128(
            tdiv128(
                2000 * ((if touchdown_length < 1 {
                    1i64
                } else {
                    touchdown_length
                }) as i128),
                (cap as i128) + 1,
            ),
            0,
            TIME_LIMIT,
        );
        let ghost pre_t = self.pos.kinematics.x_target@;
        self.pos.kinematics.x_target.push(Target { a: decel_a, dt: decel_dt });
        proof {
            assert(crate::kinematics::wf_targets(self.pos.kinematics.x_target@)) by {
                assert(forall|i: int|
                    0 <= i < pre_t.len() ==> #[trigger] self.pos.kinematics.x_target@[i]
                        == pre_t[i]);
                assert(crate::kinematics::target_wf(
                    self.pos.kinematics.x_target@[pre_t.len() as int],
                ));
            }
        }
        PlanePhaseResult::NewPhase(PhaseData::Landing { runway: landing_runway.clone_rw() })
    }

    /// Total length of the not-yet-flown instructions, saturated at the
    /// displacement limit.
    fn total_plan_length(&self) -> (r: i64)
        requires
            self.wf(),
        ensures
            0 <= r <= DS_LIMIT,
            r == (if crate::plane_pos::instr_len_sum(self.pos.planner.instructions@)
                <= DS_LIMIT {
                crate::plane_pos::instr_len_sum(self.pos.planner.instructions@)
            } else {
                DS_LIMIT as int
            }),
    {
        let mut acc: i128 = 0;
        let mut i: usize = 0;
        proof {
            assert(self.pos.planner.instructions@.take(0int) =~= Seq::empty());
        }
        while i < self.pos.planner.instructions.len()
            invariant
                self.wf(),
                0 <= i <= self.pos.planner.instructions@.len(),
                0 <= acc <= (i as int) * (LEN_LIMIT as int),
                acc == crate::plane_pos::instr_len_sum(
                    self.pos.planner.instructions@.take(i as int),
                ),
            decreases self.pos.planner.instructions@.len() - i,
        {
            let l = self.pos.planner.instructions[i].length();
            proof {
                assert((i as int) * (LEN_LIMIT as int) + LEN_LIMIT == (i as int + 1) * (
                LEN_LIMIT as int)) by (nonlinear_arith);
                assert(self.pos.planner.instructions@.take(i as int + 1).drop_last()
                    =~= self.pos.planner.instructions@.take(i as int));
                assert(self.pos.planner.instructions@.take(i as int + 1).last()
                    == self.pos.planner.instructions@[i as int]);
            }
            acc = acc + (l as i128);
            i = i + 1;
        }
        proof {
            assert(self.pos.planner.instructions@.take(
                self.pos.planner.instructions@.len() as int,
            ) =~= self.pos.planner.instructions@);
        }
        clamp128(acc, 0, DS_LIMIT)
    }

    /// Landing: remove the aircraft once the roll is complete or the speed
    /// has decayed.
    fn handle_landing_phase(&self) -> (r: PlanePhaseResult)
        requires
            self.wf(),
        ensures
            r is Remove <==> landing_done(*self),
            !(r is NewPhase),
    {
        let threshold = self.model.motion.max_v.x / 10;
        proof {
            assert((self.model.motion.max_v.x as int) / 10 == tdiv(
                self.model.motion.max_v.x as int,
                10,
            ));
        }
        if self.pos.planner.instructions.len() == 0 || self.pos.kinematics.v.x < threshold {
            PlanePhaseResult::Remove
        } else {
            PlanePhaseResult::NoChange
        }
    }

    /// One tick of the aircraft: drain events, run the transition rule of
    /// the phase in effect at the start of the tick (at most one transition),
    /// then advance the pose.  Returns whether the aircraft is done and the
    /// events to deliver to airports.
    pub fn tick(&mut self, config: &Config) -> (r: (bool, Vec<(String, AirportEvent)>))
        requires
            old(self).wf(),
            config.wf(),
        ensures
            final(self).wf(),
            final(self).id == old(self).id,
            final(self).events@.len() == 0,
            // The phase only ever advances, one step at a time.
            phase_rank(final(self).phase) == phase_rank(old(self).phase) || phase_rank(
                final(self).phase,
            ) == phase_rank(old(self).phase) + 1,
            // Landing is entered only on a clearance received this tick.
            final(self).phase is Landing && !(old(self).phase is Landing) ==> has_clearance(
                old(self).events@,
            ) && old(self).phase is Descent,
            // Cruise asks the destination for a runway exactly when its plan
            // is exhausted.
            old(self).phase is Cruise && old(self).pos.planner.route@.len() == 0 && old(self).pos.planner.instructions@.len() == 0 ==> final(self).phase is Descent && r.1@.len()
                == 1 && r.1@[0].1.from == old(self).id && r.1@[0].1.payload is RequestRunway
                && r.1@[0].0@ == old(self).flight.to@,
            old(self).phase is Cruise && !(old(self).pos.planner.route@.len() == 0 && old(self).pos.planner.instructions@.len() == 0) ==> final(self).phase is Cruise && r.1@.len()
                == 0,
            // Only a landing aircraft is ever removed, exactly when its roll
            // is done.
            r.0 <==> old(self).phase is Landing && landing_done(*old(self)),
            r.0 ==> final(self).phase is Landing,
            // Takeoff progresses to cruise exactly on runway progress.
            old(self).phase matches PhaseData::Takeoff { runway } ==> (final(self).phase is Cruise <==> takeoff_progressed(
                Pos2 { x: old(self).pos.pos_ang.0.x, y: old(self).pos.pos_ang.0.y },
                runway,
            )),
            // Descent holds until a clearance arrives.
            old(self).phase is Descent && !has_clearance(old(self).events@) ==> final(self).phase is Descent,
            // The pose is flown exactly once per tick, transition or not.
            final(self).pos.planner.past_pos@ == old(self).pos.planner.past_pos@.push(
                old(self).pos.pos_ang.0,
            ),
            // The whole transition relation, for callers that quantify over
            // the aircraft list.
            plane_ticked(*old(self), *final(self), r.0, *config),
            // In a tick without a transition the pose advances from the
            // start-of-tick state by exactly one motion pass.
            ((old(self).phase matches PhaseData::Takeoff { runway } && !takeoff_progressed(
                Pos2 { x: old(self).pos.pos_ang.0.x, y: old(self).pos.pos_ang.0.y },
                runway,
            )) || (old(self).phase is Cruise && !(old(self).pos.planner.route@.len() == 0 && old(self).pos.planner.instructions@.len() == 0)) || (old(self).phase is Descent
                && !has_clearance(old(self).events@)) || old(self).phase is Landing)
                ==> crate::plane_pos::pos_ticked(
                old(self).pos,
                final(self).pos,
                old(self).model.motion,
                config.tick_duration as int,
            ),
    {
        let mut send: Vec<(String, AirportEvent)> = Vec::new();
        let ev_result = self.handle_events();
        let phase_now = self.phase.clone_phase();
        let phase_handle_result = match phase_now {
            PhaseData::Takeoff { runway } => self.handle_takeoff_phase(config, &runway),
            PhaseData::Cruise => self.handle_cruise_phase(&mut send),
            PhaseData::Descent => self.handle_descent_phase(&ev_result),
            PhaseData::Landing { .. } => self.handle_landing_phase(),
        };
        let remove = match phase_handle_result {
            PlanePhaseResult::NewPhase(new_phase) => {
                self.phase = new_phase;
                false
            },
            PlanePhaseResult::Remove => true,
            PlanePhaseResult::NoChange => false,
        };
        let ghost mid = self.pos;
        proof {
            assert(handler_adjusted(old(self).pos, mid)) by {
                assert(mid.planner.instructions@.subrange(
                    0,
                    old(self).pos.planner.instructions@.len() as int,
                ) =~= old(self).pos.planner.instructions@);
            }
        }
        self.pos.tick(config.tick_duration, self.model.motion, config);
        proof {
            assert(crate::plane_pos::pos_ticked(
                mid,
                self.pos,
                self.model.motion,
                config.tick_duration as int,
            ));
        }
        (remove, send)
    }
}

/// A copy of a string, equal as a value.
pub fn clone_string(s: &String) -> (r: String)
    ensures
        r == *s,
{
    s.clone()
}

impl Runway {
    /// A copy of the runway, equal as a value.
    pub fn clone_rw(&self) -> (r: Runway)
        ensures
            r == *self,
    {
        Runway {
            name: self.name.clone(),
            start: self.start,
            end: self.end,
            altitude: self.altitude,
            class: self.class.clone(),
        }
    }
}

impl Flight {
    /// A copy of the flight, equal in every field the simulation reads.
    pub fn clone_fl(&self) -> (r: Flight)
        ensures
            r.airline == self.airline,
            r.code == self.code,
            r.from == self.from,
            r.to == self.to,
            r.plane@ == self.plane@,
    {
        let mut plane: Vec<String> = Vec::new();
        let mut i: usize = 0;
        while i < self.plane.len()
            invariant
                0 <= i <= self.plane@.len(),
                plane@.len() == i,
                forall|j: int| 0 <= j < i ==> #[trigger] plane@[j] == self.plane@[j],
            decreases self.plane@.len() - i,
        {
            plane.push(self.plane[i].clone());
            i = i + 1;
        }
        proof {
            assert(plane@ =~= self.plane@);
        }
        Flight {
            airline: self.airline.clone(),
            code: self.code.clone(),
            from: self.from.clone(),
            to: self.to.clone(),
            plane,
        }
    }
}

impl PlaneData {
    /// A copy of the aircraft model, equal as a value.
    pub fn clone_pd(&self) -> (r: PlaneData)
        ensures
            r.id == self.id,
            r.name == self.name,
            r.manufacturer == self.manufacturer,
            r.class == self.class,
            r.motion == self.motion,
    {
        PlaneData {
            id: self.id.clone(),
            name: self.name.clone(),
            manufacturer: self.manufacturer.clone(),
            class: self.class.clone(),
            motion: self.motion,
        }
    }
}

} // verus!
