//! Whole-simulation behaviour: phases, the event protocol, routing, spawning
//! and the tick orchestrator.

use airsim::airport::Airport;
use airsim::config::Config;
use airsim::plane::{AirportEvent, AirportEventPayload, PhaseData, Plane, PlaneEventPayload};
use airsim::pos::{Pos2, Pos2Angle};
use airsim::state::State;
use airsim::world_data::{
    AirportData, ClassCmp, Flight, ModelMotion, PlaneData, Runway, Waypoint, WorldData,
    WorldError,
};

fn runway_50() -> Runway {
    Runway {
        name: String::from("09"),
        start: Pos2 { x: 0, y: 0 },
        end: Pos2 { x: 50_000_000, y: 0 },
        altitude: 0,
        class: String::from("small"),
    }
}

fn airport_abc() -> AirportData {
    AirportData {
        name: String::from("Alpha"),
        code: String::from("ABC"),
        runways: vec![runway_50()],
    }
}

fn model() -> PlaneData {
    PlaneData {
        id: String::from("j1"),
        name: String::from("Jay"),
        manufacturer: String::from("Works"),
        class: String::from("small"),
        motion: ModelMotion {
            max_a: Pos2 { x: 5_000_000, y: 2_500_000 },
            max_v: Pos2 { x: 50_000_000, y: 10_000_000 },
            turning_radius: 50_000_000,
        },
    }
}

fn flight_to_abc() -> Flight {
    Flight {
        airline: String::from("AA"),
        code: String::from("AA1"),
        from: String::from("ABC"),
        to: String::from("ABC"),
        plane: vec![String::from("j1")],
    }
}

fn cfg(tick_ms: i64) -> Config {
    Config {
        tick_duration: tick_ms,
        plane_spawn_chance: 0,
        max_planes: None,
        cruising_altitude_plus: 1_024_000_000,
        cruising_altitude_minus: 512_000_000,
        ns_before_ew: false,
    }
}

fn world_abc() -> WorldData {
    WorldData {
        classes: Vec::new(),
        airports: vec![airport_abc()],
        flights: None,
        planes: Vec::new(),
        waypoints: Vec::new(),
    }
}

#[test]
fn go_around() {
    let mut state = State::new(&Vec::new());
    state.airports.push(Airport::new(airport_abc()));
    let rw = runway_50();
    state
        .planes
        .push(Plane::new(&model(), &flight_to_abc(), &rw, &world_abc()));
    let config = cfg(1000);
    let wd = world_abc();
    for _ in 0..100 {
        state.tick(&config, &wd);
        if state.planes.is_empty() {
            break;
        }
    }
}

#[test]
fn two_waypoints() {
    let mut state = State::new(&Vec::new());
    state.airports.push(Airport::new(airport_abc()));
    let rw = runway_50();
    state
        .planes
        .push(Plane::new(&model(), &flight_to_abc(), &rw, &world_abc()));
    state.planes[0].pos.planner.route.push_back(Waypoint {
        name: String::new(),
        pos: Pos2 { x: 50_000_000, y: -100_000_000 },
        connections: Vec::new(),
    });
    state.planes[0].pos.planner.route.push_back(Waypoint {
        name: String::new(),
        pos: Pos2 { x: 150_000_000, y: 100_000_000 },
        connections: Vec::new(),
    });
    let config = cfg(250);
    let wd = world_abc();
    for _ in 0..250 {
        state.tick(&config, &wd);
        if state.planes.is_empty() {
            break;
        }
    }
}

#[test]
fn waypoint_auto_plan() {
    let wd = WorldData {
        classes: Vec::new(),
        airports: vec![airport_abc()],
        flights: None,
        planes: Vec::new(),
        waypoints: vec![Waypoint {
            name: String::from("W1"),
            pos: Pos2 { x: 50_000_000, y: -100_000_000 },
            connections: Vec::new(),
        }],
    };
    let mut state = State::new(&Vec::new());
    state.airports.push(Airport::new(airport_abc()));
    let rw = runway_50();
    state
        .planes
        .push(Plane::new(&model(), &flight_to_abc(), &rw, &wd));
    let config = cfg(250);
    for _ in 0..250 {
        state.tick(&config, &wd);
        if state.planes.is_empty() {
            break;
        }
    }
}

#[test]
fn straight_takeoff_reaches_cruise() {
    // Full-speed run along a fifty-unit runway: within a few dozen ticks
    // the aircraft passes three quarters of the runway and enters cruise.
    let mut state = State::new(&Vec::new());
    state.airports.push(Airport::new(airport_abc()));
    let rw = runway_50();
    let pd = PlaneData {
        motion: ModelMotion {
            max_a: Pos2 { x: 5_000_000, y: 5_000_000 },
            max_v: Pos2 { x: 50_000_000, y: 10_000_000 },
            turning_radius: 50_000_000,
        },
        ..model()
    };
    state
        .planes
        .push(Plane::new(&pd, &flight_to_abc(), &rw, &world_abc()));
    let config = cfg(1000);
    let wd = world_abc();
    let mut cruised = false;
    for _ in 0..38 {
        state.tick(&config, &wd);
        if state.planes.is_empty() {
            break;
        }
        if matches!(state.planes[0].phase, PhaseData::Cruise) {
            assert!(state.planes[0].pos.pos_ang.0.x >= 37_500_000);
            cruised = true;
            break;
        }
    }
    assert!(cruised);
}

#[test]
fn landing_completes_within_bound() {
    // Destination equals origin: the aircraft takes off, asks for a runway,
    // is cleared, lands and is removed, all within a hundred ticks.
    let mut state = State::new(&Vec::new());
    state.airports.push(Airport::new(airport_abc()));
    let rw = runway_50();
    state
        .planes
        .push(Plane::new(&model(), &flight_to_abc(), &rw, &world_abc()));
    let config = cfg(1000);
    let wd = world_abc();
    let mut removed = false;
    for _ in 0..100 {
        state.tick(&config, &wd);
        if state.planes.is_empty() {
            removed = true;
            break;
        }
    }
    assert!(removed);
}

#[test]
fn reroute_consumes_both_waypoints() {
    let mut state = State::new(&Vec::new());
    state.airports.push(Airport::new(airport_abc()));
    let rw = runway_50();
    state
        .planes
        .push(Plane::new(&model(), &flight_to_abc(), &rw, &world_abc()));
    state.planes[0].pos.planner.route.push_back(Waypoint {
        name: String::new(),
        pos: Pos2 { x: 50_000_000, y: -100_000_000 },
        connections: Vec::new(),
    });
    state.planes[0].pos.planner.route.push_back(Waypoint {
        name: String::new(),
        pos: Pos2 { x: 150_000_000, y: 100_000_000 },
        connections: Vec::new(),
    });
    let config = cfg(250);
    let wd = world_abc();
    let mut consumed = false;
    for _ in 0..250 {
        state.tick(&config, &wd);
        if state.planes.is_empty() {
            break;
        }
        if state.planes[0].pos.planner.route.is_empty()
            && state.planes[0].pos.planner.instructions.is_empty()
        {
            consumed = true;
            break;
        }
    }
    assert!(consumed);
}

#[test]
fn phase_never_regresses_without_clearance() {
    // A lone aircraft with no airport to answer it: the phase walks only
    // forward and never reaches landing.
    let mut state = State::new(&Vec::new());
    // No airports at all: requests go nowhere.
    let rw = runway_50();
    state
        .planes
        .push(Plane::new(&model(), &flight_to_abc(), &rw, &world_abc()));
    let config = cfg(1000);
    let wd = world_abc();
    let rank = |p: &PhaseData| match p {
        PhaseData::Takeoff { .. } => 0,
        PhaseData::Cruise => 1,
        PhaseData::Descent => 2,
        PhaseData::Landing { .. } => 3,
    };
    let mut last = 0;
    for _ in 0..60 {
        state.tick(&config, &wd);
        assert!(!state.planes.is_empty());
        let now = rank(&state.planes[0].phase);
        assert!(now >= last);
        assert!(now <= 2);
        last = now;
    }
}

#[test]
fn event_round_trip() {
    // A cruising aircraft with an exhausted plan asks its destination for a
    // runway; the clearance is back in its inbox at the end of the same
    // orchestrator tick, and it enters landing on the next.
    let mut state = State::new(&Vec::new());
    state.airports.push(Airport::new(airport_abc()));
    let rw = runway_50();
    let mut plane = Plane::new(&model(), &flight_to_abc(), &rw, &world_abc());
    plane.phase = PhaseData::Cruise;
    plane.pos.planner.instructions.clear();
    plane.pos.planner.route.clear();
    state.planes.push(plane);
    let config = cfg(1000);
    let wd = world_abc();
    state.tick(&config, &wd);
    assert!(matches!(state.planes[0].phase, PhaseData::Descent));
    assert_eq!(state.planes[0].events.len(), 1);
    assert!(matches!(
        state.planes[0].events[0].payload,
        PlaneEventPayload::ClearForLanding(_)
    ));
    state.tick(&config, &wd);
    assert!(matches!(state.planes[0].phase, PhaseData::Landing { .. }));
}

#[test]
fn airport_answers_every_request() {
    let mut airport = Airport::new(airport_abc());
    airport.events.push_back(AirportEvent {
        from: 7,
        payload: AirportEventPayload::RequestRunway,
    });
    airport.events.push_back(AirportEvent {
        from: 9,
        payload: AirportEventPayload::RequestRunway,
    });
    let send = airport.tick(&cfg(1000));
    assert_eq!(send.len(), 2);
    assert_eq!(send[0].0, 7);
    assert_eq!(send[1].0, 9);
    for (_, ev) in &send {
        assert_eq!(ev.from, "ABC");
        match &ev.payload {
            PlaneEventPayload::ClearForLanding(rw) => assert_eq!(rw.name, "09"),
            _ => panic!("unexpected payload"),
        }
    }
    assert!(airport.events.is_empty());
}

#[test]
fn route_through_connected_graph() {
    let wd = WorldData {
        classes: Vec::new(),
        airports: Vec::new(),
        flights: None,
        planes: Vec::new(),
        waypoints: vec![
            Waypoint {
                name: String::from("A"),
                pos: Pos2 { x: 0, y: 0 },
                connections: vec![String::from("B")],
            },
            Waypoint {
                name: String::from("B"),
                pos: Pos2 { x: 100_000_000, y: 0 },
                connections: vec![String::from("A"), String::from("C")],
            },
            Waypoint {
                name: String::from("C"),
                pos: Pos2 { x: 200_000_000, y: 0 },
                connections: vec![String::from("B")],
            },
        ],
    };
    let from = Pos2Angle(Pos2 { x: -10_000_000, y: 0 }, airsim::angle::Angle(0));
    let route = wd.find_waypoint_route(from, Pos2 { x: 210_000_000, y: 0 });
    assert!(!route.is_empty());
    assert_eq!(route[route.len() - 1].name, "C");
    for k in 0..route.len() - 1 {
        assert!(route[k]
            .connections
            .iter()
            .any(|c| *c == route[k + 1].name));
    }
}

#[test]
fn route_through_disconnected_graph_is_empty() {
    let wd = WorldData {
        classes: Vec::new(),
        airports: Vec::new(),
        flights: None,
        planes: Vec::new(),
        waypoints: vec![
            Waypoint {
                name: String::from("A"),
                pos: Pos2 { x: 0, y: 0 },
                connections: Vec::new(),
            },
            Waypoint {
                name: String::from("D"),
                pos: Pos2 { x: 500_000_000, y: 500_000_000 },
                connections: Vec::new(),
            },
        ],
    };
    let from = Pos2Angle(Pos2 { x: -10_000_000, y: 0 }, airsim::angle::Angle(0));
    let route = wd.find_waypoint_route(from, Pos2 { x: 500_000_000, y: 510_000_000 });
    assert!(route.is_empty());
}

#[test]
fn spawning_respects_chance_and_cap() {
    let wd = WorldData {
        classes: Vec::new(),
        airports: vec![airport_abc()],
        flights: None,
        planes: vec![model()],
        waypoints: Vec::new(),
    };
    let mut state = State::new(&wd.airports);
    // Certain spawn.
    let mut always = cfg(1000);
    always.plane_spawn_chance = 1_000_000;
    state.tick(&always, &wd);
    assert_eq!(state.planes.len(), 1);
    // Impossible spawn.
    let never = cfg(1000);
    let mut state2 = State::new(&wd.airports);
    state2.tick(&never, &wd);
    assert!(state2.planes.is_empty());
    // Cap reached: no further aircraft.
    let mut capped = cfg(1000);
    capped.plane_spawn_chance = 1_000_000;
    capped.max_planes = Some(1);
    state.tick(&capped, &wd);
    assert_eq!(state.planes.len(), 1);
}

#[test]
fn snapshot_has_one_record_per_aircraft() {
    let mut state = State::new(&Vec::new());
    assert!(state.coord_state().is_empty());
    state.airports.push(Airport::new(airport_abc()));
    let rw = runway_50();
    state
        .planes
        .push(Plane::new(&model(), &flight_to_abc(), &rw, &world_abc()));
    // Sixteen identifier bytes plus six eight-byte words.
    assert_eq!(state.coord_state().len(), 64);
}

#[test]
fn cruising_altitude_separates_directions() {
    let c = cfg(1000);
    let east = c.cruising_altitude(Pos2 { x: 0, y: 0 }, Pos2 { x: 1_000_000, y: 0 });
    assert_eq!(east, 1_024_000_000);
    let west = c.cruising_altitude(Pos2 { x: 1_000_000, y: 0 }, Pos2 { x: 0, y: 0 });
    assert_eq!(west, 512_000_000);
    let same = c.cruising_altitude(Pos2 { x: 0, y: 0 }, Pos2 { x: 0, y: 0 });
    assert_eq!(same, 512_000_000);
    assert_eq!(c.min_cruising_altitude(), 512_000_000);
}

#[test]
fn class_comparison() {
    let wd = WorldData {
        classes: vec![vec![String::from("small"), String::from("large")]],
        airports: Vec::new(),
        flights: None,
        planes: Vec::new(),
        waypoints: Vec::new(),
    };
    assert_eq!(
        wd.cmp_class(&String::from("small"), &String::from("large")),
        Some(ClassCmp::Before)
    );
    assert_eq!(
        wd.cmp_class(&String::from("large"), &String::from("small")),
        Some(ClassCmp::After)
    );
    assert_eq!(
        wd.cmp_class(&String::from("small"), &String::from("small")),
        Some(ClassCmp::Same)
    );
    assert_eq!(
        wd.cmp_class(&String::from("small"), &String::from("huge")),
        None
    );
}

#[test]
fn phase_names() {
    assert_eq!(
        PhaseData::Takeoff { runway: runway_50() }.str(),
        "Takeoff"
    );
    assert_eq!(PhaseData::Cruise.str(), "Cruise");
    assert_eq!(PhaseData::Descent.str(), "Descent");
    assert_eq!(PhaseData::Landing { runway: runway_50() }.str(), "Landing");
}

#[test]
fn engine_runs_ticks() {
    let wd = WorldData {
        classes: Vec::new(),
        airports: vec![airport_abc()],
        flights: None,
        planes: vec![model()],
        waypoints: Vec::new(),
    };
    let mut engine = airsim::engine::Engine::new(wd, cfg(1000));
    let (removed, snapshot) = engine.tick();
    assert!(removed.is_empty());
    assert_eq!(snapshot.len() % 64, 0);
    assert_eq!(engine.state.airports.len(), 1);
    assert!(engine.state.airport(&String::from("ABC")).is_some());
    assert!(engine.state.plane(&0).is_none());
}

#[test]
fn flight_lookups() {
    let wd = WorldData {
        classes: Vec::new(),
        airports: vec![airport_abc()],
        flights: None,
        planes: vec![model()],
        waypoints: Vec::new(),
    };
    let f = flight_to_abc();
    assert_eq!(f.from(&wd).unwrap().code, "ABC");
    assert_eq!(f.to(&wd).unwrap().code, "ABC");
    let models = f.plane(&wd).unwrap();
    assert_eq!(models.len(), 1);
    assert_eq!(models[0].id, "j1");

    let stranger = Flight {
        from: String::from("ZZZ"),
        ..flight_to_abc()
    };
    assert!(matches!(stranger.from(&wd), Err(WorldError::UnknownAirport)));
    assert_eq!(stranger.to(&wd).unwrap().code, "ABC");

    let unknown_model = Flight {
        plane: vec![String::from("mystery")],
        ..flight_to_abc()
    };
    assert!(matches!(
        unknown_model.plane(&wd),
        Err(WorldError::UnknownPlaneModel)
    ));
    assert!(wd.plane_model(&String::from("mystery")).is_none());
}
