//! Fixed-point geometry: angles, vectors, rays, direction classification and
//! the turn-and-tangent planner.

use std::collections::VecDeque;

use airsim::angle::{Angle, HALF_PI_UR, PI_UR, TAU_UR};
use airsim::config::Config;
use airsim::direction::{Direction, PerpRot, Rotation, FMB, LMR};
use airsim::kinematics::Kinematics;
use airsim::plane_pos::{FlightInstruction, FlightPlanner, PlanePos};
use airsim::pos::{Pos2, Pos2Angle, Pos3, Pos3Angle};
use airsim::ray::{Ray, Vector};
use airsim::world_data::ModelMotion;

fn mm(turning_radius: i64) -> ModelMotion {
    ModelMotion {
        max_a: Pos2 { x: 1_000_000_000, y: 1_000_000_000 },
        max_v: Pos2 { x: 1_000_000_000_000, y: 1_000_000_000_000 },
        turning_radius,
    }
}

fn cfg() -> Config {
    Config {
        tick_duration: 1000,
        plane_spawn_chance: 0,
        max_planes: None,
        cruising_altitude_plus: 1_024_000_000,
        cruising_altitude_minus: 512_000_000,
        ns_before_ew: false,
    }
}

#[test]
fn unit_vectors_of_cardinal_angles() {
    let east = Angle(0).vec();
    assert_eq!((east.x, east.y), (1_000_000, 0));
    let north = Angle(HALF_PI_UR).vec();
    assert_eq!((north.x, north.y), (0, 1_000_000));
    let west = Angle(PI_UR).vec();
    assert_eq!((west.x, west.y), (-1_000_000, 0));
}

#[test]
fn to_angle_of_cardinal_vectors() {
    assert_eq!(Pos2 { x: 1_000_000, y: 0 }.to_angle().0, 0);
    assert_eq!(Pos2 { x: 0, y: 1_000_000 }.to_angle().0, HALF_PI_UR);
    assert_eq!(Pos2 { x: -1_000_000, y: 0 }.to_angle().0, PI_UR);
    assert_eq!(Pos2 { x: 0, y: -1_000_000 }.to_angle().0, -HALF_PI_UR);
}

#[test]
fn distance_is_euclidean() {
    let a = Pos2 { x: 0, y: 0 };
    let b = Pos2 { x: 3_000_000, y: 4_000_000 };
    assert_eq!(a.distance(b), 5_000_000);
}

#[test]
fn angle_clamp_wraps_keeping_sign() {
    assert_eq!(Angle(TAU_UR + 5).clamp().0, 5);
    assert_eq!(Angle(-TAU_UR - 5).clamp().0, -5);
    assert_eq!(Angle(PI_UR).clamp().0, PI_UR);
}

#[test]
fn direction_classification() {
    let east = Pos2 { x: 1_000_000, y: 0 };
    let north = Pos2 { x: 0, y: 1_000_000 };
    let south = Pos2 { x: 0, y: -1_000_000 };
    assert_eq!(east.lmr(north), LMR::Left);
    assert_eq!(east.lmr(south), LMR::Right);
    assert_eq!(east.lmr(east), LMR::Middle);
    assert_eq!(east.fmb(east), FMB::Front);
    assert_eq!(east.fmb(Pos2 { x: -1_000_000, y: 0 }), FMB::Back);
    assert_eq!(east.fmb(north), FMB::Middle);
    assert_eq!(east.turning_rot(north), Some(Rotation::Anticlockwise));
    assert_eq!(east.turning_rot(south), Some(Rotation::Clockwise));
    assert_eq!(east.turning_rot(east), None);
}

#[test]
fn direction_reversals() {
    assert_eq!(LMR::Left.rev(), LMR::Right);
    assert_eq!(LMR::Middle.rev(), LMR::Middle);
    assert_eq!(FMB::Front.rev(), FMB::Back);
    assert_eq!(FMB::Middle.rev(), FMB::Middle);
    assert_eq!(Rotation::Clockwise.rev(), Rotation::Anticlockwise);
    assert_eq!(Rotation::Anticlockwise.opp(), Rotation::Clockwise);
}

#[test]
fn perp_rotation() {
    let east = Pos2 { x: 1_000_000, y: 0 };
    let anti = east.perp_rot(Rotation::Anticlockwise);
    assert_eq!((anti.x, anti.y), (0, 1_000_000));
    let cw = east.perp_rot(Rotation::Clockwise);
    assert_eq!((cw.x, cw.y), (0, -1_000_000));
    let left = east.perp_lmr(LMR::Left);
    assert_eq!((left.x, left.y), (0, 1_000_000));
}

#[test]
fn ray_endpoints() {
    let r = Ray::new(Pos2 { x: 1, y: 2 }, Pos2 { x: 4, y: 6 });
    assert_eq!((r.vec.x, r.vec.y), (3, 4));
    let h = r.head();
    assert_eq!((h.x, h.y), (4, 6));
    let rev = r.rev();
    assert_eq!((rev.tail.x, rev.tail.y), (4, 6));
    assert_eq!((rev.vec.x, rev.vec.y), (-3, -4));
    let p3 = Ray::new(Pos3 { x: 0, y: 0, z: 0 }, Pos3 { x: 1, y: 1, z: 1 });
    let h3 = p3.head();
    assert_eq!((h3.x, h3.y, h3.z), (1, 1, 1));
    assert_eq!(p3.vec.v_negate().x, -1);
}

#[test]
fn straight_instruction_samples_along_the_ray() {
    let instr = FlightInstruction::Straight(Ray::new(
        Pos2 { x: 0, y: 0 },
        Pos2 { x: 10_000_000, y: 0 },
    ));
    assert_eq!(instr.length(), 10_000_000);
    let mid = instr.sample(5_000_000).unwrap();
    assert_eq!((mid.0.x, mid.0.y), (5_000_000, 0));
    assert_eq!(mid.1 .0, 0);
    assert!(instr.sample(10_000_001).is_none());
    assert!(instr.sample(-1).is_none());
    let end = instr.end();
    assert_eq!((end.0.x, end.0.y), (10_000_000, 0));
}

#[test]
fn turn_instruction_half_circle() {
    // Quarter radius two: a half turn to the left from east ends heading
    // west, displaced two radii north.
    let instr = FlightInstruction::Turn {
        origin: Pos2Angle(Pos2 { x: 10_000_000, y: 0 }, Angle(0)),
        angle: Angle(PI_UR),
        radius: 2_000_000,
    };
    let len = instr.length();
    assert!((len - 6_283_185).abs() <= 10, "len = {len}");
    let end = instr.end();
    assert!((end.0.x - 10_000_000).abs() <= 20_000, "x = {}", end.0.x);
    assert!((end.0.y - 4_000_000).abs() <= 20_000, "y = {}", end.0.y);
    assert_eq!(end.1 .0, PI_UR);
}

#[test]
fn plan_to_pos2_straight() {
    // A target dead ahead needs no turn.
    let r = FlightPlanner::plan_to_pos2(
        Pos2Angle(Pos2 { x: 0, y: 0 }, Angle(0)),
        Pos2 { x: 10_000_000, y: 0 },
        mm(1_000_000),
    );
    assert_eq!(r.len(), 1);
    match &r[0] {
        FlightInstruction::Straight(ray) => {
            assert_eq!((ray.tail.x, ray.tail.y), (0, 0));
            assert_eq!((ray.vec.x, ray.vec.y), (10_000_000, 0));
        }
        FlightInstruction::Turn { .. } => panic!("expected a straight segment"),
    }
}

#[test]
fn plan_to_pos2_90deg() {
    // From the origin heading north to a target off to the right: a right
    // quarter turn, then a tangent run of length nine.
    let r = FlightPlanner::plan_to_pos2(
        Pos2Angle(Pos2 { x: 0, y: 0 }, Angle(HALF_PI_UR)),
        Pos2 { x: 10_000_000, y: 1_000_000 },
        mm(1_000_000),
    );
    assert_eq!(r.len(), 2);
    match &r[0] {
        FlightInstruction::Turn { angle, .. } => {
            assert!((angle.0 + HALF_PI_UR).abs() <= 15_000, "theta = {}", angle.0);
        }
        FlightInstruction::Straight(_) => panic!("expected the turn"),
    }
    match &r[1] {
        FlightInstruction::Straight(ray) => {
            let len = ray.vec.length();
            assert!((len - 9_000_000).abs() <= 5_000, "len = {len}");
        }
        FlightInstruction::Turn { .. } => panic!("expected the tangent run"),
    }
}

#[test]
fn plan_to_pos2_180deg() {
    // A target far behind on the right: a half turn, then a tangent run of
    // length ten.
    let r = FlightPlanner::plan_to_pos2(
        Pos2Angle(Pos2 { x: 0, y: 0 }, Angle(HALF_PI_UR)),
        Pos2 { x: 2_000_000, y: -10_000_000 },
        mm(1_000_000),
    );
    assert_eq!(r.len(), 2);
    match &r[0] {
        FlightInstruction::Turn { angle, .. } => {
            assert!((angle.0 + PI_UR).abs() <= 15_000, "theta = {}", angle.0);
        }
        FlightInstruction::Straight(_) => panic!("expected the turn"),
    }
    match &r[1] {
        FlightInstruction::Straight(ray) => {
            let len = ray.vec.length();
            assert!((len - 10_000_000).abs() <= 5_000, "len = {len}");
        }
        FlightInstruction::Turn { .. } => panic!("expected the tangent run"),
    }
}

#[test]
fn plan_to_pos2_opp() {
    // A target inside the natural turning circle: the turn reverses into a
    // three-hundred-degree left turn, then a root-three tangent run.
    let r = FlightPlanner::plan_to_pos2(
        Pos2Angle(Pos2 { x: 0, y: 0 }, Angle(HALF_PI_UR)),
        Pos2 { x: 1_000_000, y: 0 },
        mm(1_000_000),
    );
    assert_eq!(r.len(), 2);
    match &r[0] {
        FlightInstruction::Turn { angle, .. } => {
            assert!((angle.0 - 5_235_988).abs() <= 15_000, "theta = {}", angle.0);
        }
        FlightInstruction::Straight(_) => panic!("expected the turn"),
    }
    match &r[1] {
        FlightInstruction::Straight(ray) => {
            let len = ray.vec.length();
            assert!((len - 1_732_051).abs() <= 5_000, "len = {len}");
        }
        FlightInstruction::Turn { .. } => panic!("expected the tangent run"),
    }
}

#[test]
fn waypoints() {
    let mut plane_pos = PlanePos {
        pos_ang: Pos3Angle(Pos3 { x: 0, y: 0, z: 0 }, Angle(0)),
        kinematics: {
            let mut k = Kinematics::new();
            k.v = Pos2 { x: 1_000_000, y: 0 };
            k
        },
        planner: FlightPlanner::new(
            VecDeque::new(),
            VecDeque::from([
                airsim::world_data::Waypoint {
                    name: String::new(),
                    pos: Pos2 { x: 10_000_000, y: 0 },
                    connections: Vec::new(),
                },
                airsim::world_data::Waypoint {
                    name: String::new(),
                    pos: Pos2 { x: 10_000_000, y: 10_000_000 },
                    connections: Vec::new(),
                },
            ]),
        ),
    };
    let model_motion = mm(500_000);
    let config = cfg();

    for _ in 0..25 {
        plane_pos.tick(1000, model_motion, &config);
        if plane_pos.planner.instructions.is_empty() {
            let p = Pos2 { x: plane_pos.pos_ang.0.x, y: plane_pos.pos_ang.0.y };
            assert!(p.distance(Pos2 { x: 10_000_000, y: 10_000_000 }) < 2_000_000);
            break;
        }
    }
}

#[test]
fn straight_turn() {
    let mut plane_pos = PlanePos {
        pos_ang: Pos3Angle(Pos3 { x: 0, y: 0, z: 0 }, Angle(0)),
        kinematics: {
            let mut k = Kinematics::new();
            k.v = Pos2 { x: 1_000_000, y: 0 };
            k
        },
        planner: FlightPlanner::new(
            VecDeque::from([
                FlightInstruction::Straight(Ray::new(
                    Pos2 { x: 0, y: 0 },
                    Pos2 { x: 10_000_000, y: 0 },
                )),
                FlightInstruction::Turn {
                    origin: Pos2Angle(Pos2 { x: 10_000_000, y: 0 }, Angle(0)),
                    radius: 2_000_000,
                    angle: Angle(PI_UR),
                },
            ]),
            VecDeque::new(),
        ),
    };
    let model_motion = mm(2_000_000);
    let config = cfg();

    for _ in 0..25 {
        plane_pos.tick(1000, model_motion, &config);
        if plane_pos.planner.instructions.is_empty() {
            let p = Pos2 { x: plane_pos.pos_ang.0.x, y: plane_pos.pos_ang.0.y };
            assert!(p.distance(Pos2 { x: 10_000_000, y: 4_000_000 }) < 1_000_000);
            assert!((plane_pos.pos_ang.1 .0 - PI_UR).abs() <= 10_000);
            break;
        }
    }
}
