//! Motion-solver behaviour: ramps, displacement profiles, rejected targets.

use airsim::kinematics::{Kinematics, KinematicsError, Target};
use airsim::pos::Pos2;
use airsim::world_data::ModelMotion;

fn mm_vertical() -> ModelMotion {
    ModelMotion {
        max_a: Pos2 { x: 1_000_000_000, y: 5_000_000 },
        max_v: Pos2 { x: 1_000_000_000_000, y: 30_000_000 },
        turning_radius: 1,
    }
}

fn mm_horizontal() -> ModelMotion {
    ModelMotion {
        max_a: Pos2 { x: 5_000_000, y: 1_000_000_000 },
        max_v: Pos2 { x: 30_000_000, y: 1_000_000_000_000 },
        turning_radius: 1,
    }
}

#[test]
fn change_altitude() {
    let model_motion = mm_vertical();
    let mut k = Kinematics::new();
    k.target_y(Some(0), Some(123_000_000), None, None, model_motion)
        .unwrap();
    let mut z: i64 = 0;

    for _ in 0..100 {
        z += k.tick(1000, model_motion).y;
        if k.y_target.is_empty() {
            break;
        }
    }
    assert!(k.y_target.is_empty());
    assert!((z - 123_000_000).abs() <= 1_000_000);
}

#[test]
fn change_velocity() {
    let model_motion = mm_horizontal();
    let mut k = Kinematics::new();
    k.target_x(Some(30_000_000), None, None, None, model_motion)
        .unwrap();
    let mut x: i64 = 0;

    for _ in 0..100 {
        x += k.tick(1000, model_motion).x;
        if k.x_target.is_empty() {
            break;
        }
    }
    assert!(k.x_target.is_empty());
    assert!((k.v.x - 30_000_000).abs() <= 1_000_000);
}

#[test]
fn change_velocity_with_target_displacement() {
    let model_motion = mm_horizontal();
    let mut k = Kinematics::new();
    k.target_x(Some(10_000_000), Some(50_000_000), None, None, model_motion)
        .unwrap();
    let mut x: i64 = 0;

    for _ in 0..100 {
        x += k.tick(1000, model_motion).x;
        if k.x_target.is_empty() {
            break;
        }
    }
    assert!(k.x_target.is_empty());
    assert!((k.v.x - 10_000_000).abs() <= 1_000_000);
    assert!(x > 50_000_000);
}

#[test]
fn ramp_reaches_target_exactly_when_divisible() {
    // 30 units/s at 5 units/s^2 takes exactly six one-second ticks; the
    // pending list empties exactly at convergence.
    let model_motion = mm_horizontal();
    let mut k = Kinematics::new();
    k.target_x(Some(30_000_000), None, None, None, model_motion)
        .unwrap();
    let mut ticks = 0;
    for _ in 0..100 {
        k.tick(1000, model_motion);
        ticks += 1;
        if k.x_target.is_empty() {
            break;
        }
    }
    assert_eq!(k.v.x, 30_000_000);
    assert_eq!(ticks, 6);
}

#[test]
fn triangular_displacement_total() {
    // The aggregate displacement of a consumed triangular profile matches
    // the request within one world unit.
    let model_motion = mm_horizontal();
    let mut k = Kinematics::new();
    k.target_x(Some(10_000_000), Some(50_000_000), None, None, model_motion)
        .unwrap();
    let mut x: i64 = 0;
    for _ in 0..100 {
        x += k.tick(250, model_motion).x;
        if k.x_target.is_empty() {
            break;
        }
    }
    assert!(k.x_target.is_empty());
    assert!((x - 50_000_000).abs() <= 1_000_000, "x = {x}");
}

#[test]
fn no_target_is_rejected() {
    let r = Target::new(None, None, None, 30_000_000, 5_000_000, 0);
    assert!(matches!(r, Err(KinematicsError::NoTarget)));
}

#[test]
fn unsupported_combinations_are_rejected() {
    let r = Target::new(Some(10_000_000), None, Some(1000), 30_000_000, 5_000_000, 0);
    assert!(matches!(r, Err(KinematicsError::Unsupported)));
    let r = Target::new(None, Some(10_000_000), Some(1000), 30_000_000, 5_000_000, 0);
    assert!(matches!(r, Err(KinematicsError::Unsupported)));
    let r = Target::new(None, Some(10_000_000), None, 30_000_000, 5_000_000, 0);
    assert!(matches!(r, Err(KinematicsError::Unsupported)));
}

#[test]
fn degenerate_triangle_is_rejected() {
    // Target velocity beyond the cap with too little distance: both phases
    // would accelerate the same way.
    let r = Target::new(
        Some(40_000_000),
        Some(100_000_000),
        None,
        30_000_000,
        5_000_000,
        0,
    );
    assert!(matches!(r, Err(KinematicsError::Degenerate)));
}

#[test]
fn rejected_target_coasts() {
    let model_motion = mm_horizontal();
    let mut k = Kinematics::new();
    k.v = Pos2 { x: 7_000_000, y: 0 };
    assert!(k
        .target_x(None, None, None, None, model_motion)
        .is_err());
    assert!(k.x_target.is_empty());
    let ds = k.tick(1000, model_motion);
    // Coasting: one second at 7 units per second.
    assert_eq!(ds.x, 7_000_000);
    assert_eq!(k.v.x, 7_000_000);
}

#[test]
fn ramp_sums_duration() {
    let r = Target::new(Some(30_000_000), None, None, 30_000_000, 5_000_000, 0).unwrap();
    // 30 units/s at 5 units/s^2: six seconds of acceleration.
    assert_eq!(Target::sum_t(&r), 6_000);
}

#[test]
fn trapezoidal_profile_converges() {
    // Far target: accelerate to the cap, cruise, decelerate to ten.
    let model_motion = mm_horizontal();
    let mut k = Kinematics::new();
    k.target_x(Some(10_000_000), Some(500_000_000), None, None, model_motion)
        .unwrap();
    assert_eq!(k.x_target.len(), 3);
    let mut x: i64 = 0;
    for _ in 0..200 {
        x += k.tick(1000, model_motion).x;
        if k.x_target.is_empty() {
            break;
        }
    }
    assert!(k.x_target.is_empty());
    assert!((k.v.x - 10_000_000).abs() <= 1_000_000);
    assert!((x - 500_000_000).abs() <= 40_000_000, "x = {x}");
}
