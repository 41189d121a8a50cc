//! Discrete-tick simulation of aircraft moving through controlled airspace.
//!
//! All quantities are fixed-point integers: positions in micro-units,
//! velocities in micro-units per second, accelerations in micro-units per
//! second squared, durations in milliseconds and angles in micro-radians.

use vstd::prelude::*;

pub mod airport;
pub mod angle;
pub mod config;
pub mod direction;
pub mod engine;
pub mod kinematics;
pub mod laws;
pub mod num;
pub mod plane;
pub mod plane_pos;
pub mod pos;
pub mod ray;
pub mod rng;
pub mod state;
pub mod world_data;

verus! {

/// The code of an airport in reference data.
pub type AirportCode = String;

/// The published code of a flight.
pub type FlightCode = String;

/// A runway or aircraft class name.
pub type Class = String;

/// The identifier of an aircraft model.
pub type PlaneModelId = String;

/// The name of a waypoint of the route graph.
pub type WaypointId = String;

/// The identifier of a live aircraft.
pub type PlaneStateId = u128;

/// The identifier of a live airport (its code).
pub type AirportStateId = String;

} // verus!
