//! Simulation configuration: tick pacing, spawn probability, aircraft cap
//! and the cruising-altitude selection rule.

use vstd::prelude::*;

use crate::kinematics::TICK_MAX;
use crate::num::abs_i;
use crate::pos::{Pos2, COORD_LIMIT};

verus! {

/// Spawn chances are expressed in parts per million.
pub const CHANCE_SCALE: i64 = 1_000_000;

/// Runtime parameters of the simulation.
#[derive(Clone, Debug)]
pub struct Config {
    /// Length of one tick, in milliseconds.
    pub tick_duration: i64,
    /// Probability of spawning an aircraft each tick, in parts per million.
    pub plane_spawn_chance: i64,
    /// Optional cap on concurrently active aircraft.
    pub max_planes: Option<usize>,
    /// Cruising altitude of eastbound/northbound traffic, micro-units.
    pub cruising_altitude_plus: i64,
    /// Cruising altitude of westbound/southbound traffic, micro-units.
    pub cruising_altitude_minus: i64,
    /// Whether the north/south component picks the altitude band.
    pub ns_before_ew: bool,
}

/// The cruising altitude the rule selects for a leg from `from` to `to`.
pub open spec fn cruising_altitude_spec(c: Config, from: Pos2, to: Pos2) -> int {
    if from == to {
        min_cruising_altitude_spec(c)
    } else if c.ns_before_ew {
        if from.y < to.y || (from.y == to.y && from.x < to.x) {
            c.cruising_altitude_plus as int
        } else {
            c.cruising_altitude_minus as int
        }
    } else {
        if from.x < to.x || (from.x == to.x && from.y < to.y) {
            c.cruising_altitude_plus as int
        } else {
            c.cruising_altitude_minus as int
        }
    }
}

/// The lower of the two altitude bands.
pub open spec fn min_cruising_altitude_spec(c: Config) -> int {
    if c.cruising_altitude_plus < c.cruising_altitude_minus {
        c.cruising_altitude_plus as int
    } else {
        c.cruising_altitude_minus as int
    }
}

impl Config {
    /// Bounded pacing, probability and altitudes.
    pub open spec fn wf(self) -> bool {
        &&& 0 < self.tick_duration <= TICK_MAX
        &&& 0 <= self.plane_spawn_chance <= CHANCE_SCALE
        &&& abs_i(self.cruising_altitude_plus as int) <= COORD_LIMIT
        &&& abs_i(self.cruising_altitude_minus as int) <= COORD_LIMIT
    }

    /// Selects the altitude band for a leg by its direction of travel, so
    /// that opposite directions are vertically separated.
    pub fn cruising_altitude(&self, from: Pos2, to: Pos2) -> (r: i64)
        ensures
            r == cruising_altitude_spec(*self, from, to),
    {
        if from.x == to.x && from.y == to.y {
            return self.min_cruising_altitude();
        }
        if self.ns_before_ew {
            if from.y < to.y || (from.y == to.y && from.x < to.x) {
                self.cruising_altitude_plus
            } else {
                self.cruising_altitude_minus
            }
        } else {
            if from.x < to.x || (from.x == to.x && from.y < to.y) {
                self.cruising_altitude_plus
            } else {
                self.cruising_altitude_minus
            }
        }
    }

    /// The lower of the two altitude bands.
    pub fn min_cruising_altitude(&self) -> (r: i64)
        ensures
            r == min_cruising_altitude_spec(*self),
    {
        if self.cruising_altitude_plus < self.cruising_altitude_minus {
            self.cruising_altitude_plus
        } else {
            self.cruising_altitude_minus
        }
    }
}

impl Default for Config {
    /// One-second ticks, a five-percent spawn chance, no aircraft cap, and
    /// altitude bands at 1024 and 512 units.
    fn default() -> (r: Config)
        ensures
            r.tick_duration == 1000,
            r.plane_spawn_chance == 50_000,
            r.max_planes is None,
            r.cruising_altitude_plus == 1_024_000_000,
            r.cruising_altitude_minus == 512_000_000,
            !r.ns_before_ew,
            r.wf(),
    {
        Config {
            tick_duration: 1000,
            plane_spawn_chance: 50_000,
            max_planes: None,
            cruising_altitude_plus: 1_024_000_000,
            cruising_altitude_minus: 512_000_000,
            ns_before_ew: false,
        }
    }
}

} // verus!
